//! Order execution: validation of requests and acknowledgement of create and
//! cancel calls.  Final confirmation of an order arrives later on the account
//! stream; these results only record that the exchange accepted the call.
use crate::decimal::Decimal;
use crate::order::{Order, OrderRequest, OrderType};
use crate::text::{join2, owned};
use crate::time::{now, Timestamp};
use vstd::prelude::*;

verus! {

#[derive(Debug, Clone, PartialEq, Eq)]
pub enum ExecError {
    CreateFailed(String),
    CancelFailed(String),
    ValidationError(String),
}

/// The text of an execution error.
pub open spec fn exec_error_text(e: ExecError) -> Seq<char> {
    match e {
        ExecError::CreateFailed(m) => "Order creation failed: "@ + m@,
        ExecError::CancelFailed(m) => "Order cancellation failed: "@ + m@,
        ExecError::ValidationError(m) => "Validation error: "@ + m@,
    }
}

impl ExecError {
    /// The text of the error.
    pub fn text(&self) -> (t: String)
        ensures
            t@ == exec_error_text(*self),
    {
        match self {
            ExecError::CreateFailed(m) => join2("Order creation failed: ", m.as_str()),
            ExecError::CancelFailed(m) => join2("Order cancellation failed: ", m.as_str()),
            ExecError::ValidationError(m) => join2("Validation error: ", m.as_str()),
        }
    }
}

/// The error is a validation error with the message `m`.
pub open spec fn is_validation_error(e: ExecError, m: Seq<char>) -> bool {
    e matches ExecError::ValidationError(s) && s@ == m
}

/// Result of an order creation.
#[derive(Debug, Clone)]
pub enum ExecResult {
    /// The exchange accepted the order; its final state comes from the stream.
    Acked { order_hash: String, ack_time: Timestamp },
    /// The order was rejected at once.
    Rejected { reason: String },
}

/// Result of a cancellation.
#[derive(Debug, Clone)]
pub enum CancelResult {
    /// The exchange accepted the cancellation of these orders.
    Acked { order_hashes: Vec<String>, ack_time: Timestamp },
    /// The cancellation failed.
    Failed { reason: String },
}

/// Message for a request whose size is not positive.
pub open spec fn msg_size_not_positive() -> Seq<char> {
    "Size must be positive"@
}

/// Message for a limit request without a price.
pub open spec fn msg_limit_without_price() -> Seq<char> {
    "Limit orders require a price"@
}

/// Checks a request before it is handed to the executor: the size must be
/// positive, and a limit order must carry a price.  (A post-only order that is
/// not good-til-cancel passes; it only deserves a warning.)
pub fn validate_order(request: &OrderRequest) -> (r: Result<(), ExecError>)
    ensures
        request.size.mant() <= 0 ==> r is Err && is_validation_error(
            r->Err_0,
            msg_size_not_positive(),
        ),
        request.size.mant() > 0 && request.order_type == OrderType::Limit && request.price is None
            ==> r is Err && is_validation_error(r->Err_0, msg_limit_without_price()),
        r is Ok <==> (request.size.mant() > 0 && !(request.order_type == OrderType::Limit
            && request.price is None)),
{
    if request.size.le(&Decimal::zero()) {
        proof {
            reveal_with_fuel(crate::decimal::pow10, 1);
        }
        return Err(ExecError::ValidationError(owned("Size must be positive")));
    }
    if request.order_type == OrderType::Limit && request.price.is_none() {
        return Err(ExecError::ValidationError(owned("Limit orders require a price")));
    }
    Ok(())
}

/// The result of an order creation, from what the executor returned: the
/// created order, or the text of its error.  An accepted order is stamped with
/// the current time.
pub fn create_result(outcome: Result<Order, String>) -> (r: ExecResult)
    ensures
        match outcome {
            Ok(o) => r matches ExecResult::Acked { order_hash, .. } && order_hash == o.order_hash,
            Err(reason) => r == ExecResult::Rejected { reason },
        },
{
    match outcome {
        Ok(order) => ExecResult::Acked { order_hash: order.order_hash, ack_time: now() },
        Err(reason) => ExecResult::Rejected { reason },
    }
}

/// The result of a cancellation, from what the executor returned: the hashes
/// of the cancelled orders, or the text of its error.  An accepted
/// cancellation is stamped with the current time.
pub fn cancel_result(outcome: Result<Vec<String>, String>) -> (r: CancelResult)
    ensures
        match outcome {
            Ok(h) => r matches CancelResult::Acked { order_hashes, .. } && order_hashes == h,
            Err(reason) => r == CancelResult::Failed { reason },
        },
{
    match outcome {
        Ok(order_hashes) => CancelResult::Acked { order_hashes, ack_time: now() },
        Err(reason) => CancelResult::Failed { reason },
    }
}

} // verus!
