//! Core error type.
use crate::text::{join2, join3};
use vstd::prelude::*;

verus! {

#[derive(Debug, Clone, PartialEq, Eq)]
pub enum CoreError {
    InvalidStateTransition { from: String, to: String },
    OrderNotFound(String),
    InvalidPrice(String),
    InvalidQuantity(String),
    SerializationError(String),
    ApiError(String),
    AuthError(String),
    InvalidRequest(String),
    DatabaseError(String),
    WebSocketError(String),
}

/// The text of a core error.
pub open spec fn core_error_text(e: CoreError) -> Seq<char> {
    match e {
        CoreError::InvalidStateTransition { from, to } => "Invalid order state transition: "@ + from@
            + " -> "@ + to@,
        CoreError::OrderNotFound(m) => "Order not found: "@ + m@,
        CoreError::InvalidPrice(m) => "Invalid price: "@ + m@,
        CoreError::InvalidQuantity(m) => "Invalid quantity: "@ + m@,
        CoreError::SerializationError(m) => "Serialization error: "@ + m@,
        CoreError::ApiError(m) => "API error: "@ + m@,
        CoreError::AuthError(m) => "Authentication error: "@ + m@,
        CoreError::InvalidRequest(m) => "Invalid request: "@ + m@,
        CoreError::DatabaseError(m) => "Database error: "@ + m@,
        CoreError::WebSocketError(m) => "WebSocket error: "@ + m@,
    }
}

impl CoreError {
    /// The text of the error.
    pub fn text(&self) -> (t: String)
        ensures
            t@ == core_error_text(*self),
    {
        match self {
            CoreError::InvalidStateTransition { from, to } => {
                let head = join3("Invalid order state transition: ", from.as_str(), " -> ");
                join2(head.as_str(), to.as_str())
            },
            CoreError::OrderNotFound(m) => join2("Order not found: ", m.as_str()),
            CoreError::InvalidPrice(m) => join2("Invalid price: ", m.as_str()),
            CoreError::InvalidQuantity(m) => join2("Invalid quantity: ", m.as_str()),
            CoreError::SerializationError(m) => join2("Serialization error: ", m.as_str()),
            CoreError::ApiError(m) => join2("API error: ", m.as_str()),
            CoreError::AuthError(m) => join2("Authentication error: ", m.as_str()),
            CoreError::InvalidRequest(m) => join2("Invalid request: ", m.as_str()),
            CoreError::DatabaseError(m) => join2("Database error: ", m.as_str()),
            CoreError::WebSocketError(m) => join2("WebSocket error: ", m.as_str()),
        }
    }
}

} // verus!
