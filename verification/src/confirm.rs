//! Confirmation of orders from account stream events.
use crate::event::AccountEvent;
use crate::order::OrderStatus;
use crate::text::str_eq;
use vstd::prelude::*;

verus! {

/// Final state of an order as its confirmation reports it.
#[derive(Debug, Clone, Copy, PartialEq, Eq, Structural)]
pub enum ConfirmStatus {
    Active,
    Filled,
    PartiallyFilled,
    Canceled,
    Expired,
    TimedOut,
}

/// The confirmation status of an order status: a rejected order counts as
/// timed out.
pub open spec fn confirm_of(status: OrderStatus) -> ConfirmStatus {
    match status {
        OrderStatus::Open => ConfirmStatus::Active,
        OrderStatus::Partial => ConfirmStatus::PartiallyFilled,
        OrderStatus::Filled => ConfirmStatus::Filled,
        OrderStatus::Cancelled => ConfirmStatus::Canceled,
        OrderStatus::Expired => ConfirmStatus::Expired,
        OrderStatus::Rejected => ConfirmStatus::TimedOut,
    }
}

impl From<OrderStatus> for ConfirmStatus {
    fn from(status: OrderStatus) -> (r: ConfirmStatus) {
        match status {
            OrderStatus::Open => ConfirmStatus::Active,
            OrderStatus::Partial => ConfirmStatus::PartiallyFilled,
            OrderStatus::Filled => ConfirmStatus::Filled,
            OrderStatus::Cancelled => ConfirmStatus::Canceled,
            OrderStatus::Expired => ConfirmStatus::Expired,
            OrderStatus::Rejected => ConfirmStatus::TimedOut,
        }
    }
}

impl vstd::std_specs::convert::FromSpecImpl<OrderStatus> for ConfirmStatus {
    open spec fn obeys_from_spec() -> bool {
        true
    }

    open spec fn from_spec(v: OrderStatus) -> ConfirmStatus {
        confirm_of(v)
    }
}

/// The confirmation status of an order status.
pub fn confirm_status_from_order_status(status: OrderStatus) -> (r: ConfirmStatus)
    ensures
        r == confirm_of(status),
{
    ConfirmStatus::from(status)
}

/// What an account event tells about the confirmation of the order with
/// hash `order_hash`: the status of an update of that order, nothing for any
/// other event.
pub fn confirm_from_event(event: &AccountEvent, order_hash: &str) -> (r: Option<ConfirmStatus>)
    ensures
        match *event {
            AccountEvent::OrderUpdate(u) => if u.order.order_hash@ == order_hash@ {
                r == Some(confirm_of(u.order.status))
            } else {
                r is None
            },
            _ => r is None,
        },
{
    match event {
        AccountEvent::OrderUpdate(update) => {
            if str_eq(update.order.order_hash.as_str(), order_hash) {
                Some(ConfirmStatus::from(update.order.status))
            } else {
                None
            }
        },
        _ => None,
    }
}

} // verus!
