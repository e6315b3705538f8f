//! Balances and positions.
use crate::decimal::{rd_checked_sub, Decimal};
use crate::time::{now, Timestamp};
use vstd::prelude::*;

verus! {

/// Snapshot of an account balance.
#[derive(Debug)]
pub struct Balance {
    pub asset: String,
    /// Total balance, locked part included.
    pub total: Decimal,
    /// Balance available for trading.
    pub available: Decimal,
    /// Balance locked in orders or positions.
    pub locked: Decimal,
    pub snapshot_at: Timestamp,
}

impl Clone for Balance {
    fn clone(&self) -> (r: Self)
        ensures
            r == *self,
    {
        Balance {
            asset: self.asset.clone(),
            total: self.total,
            available: self.available,
            locked: self.locked,
            snapshot_at: self.snapshot_at,
        }
    }
}

/// `total - available` does not overflow.
pub open spec fn locked_defined(total: Decimal, available: Decimal) -> bool {
    rd_checked_sub(total.mant(), total.exp() as int, available.mant(), available.exp() as int) is Some
}

impl Balance {
    /// A balance snapshot taken now, with `locked = total - available`.
    pub fn new(asset: &str, total: Decimal, available: Decimal) -> (b: Self)
        requires
            locked_defined(total, available),
        ensures
            b.asset@ == asset@,
            b.total == total,
            b.available == available,
            b.locked.has_parts(
                rd_checked_sub(total.mant(), total.exp() as int, available.mant(), available.exp() as int)->0,
            ),
    {
        Balance {
            asset: asset.to_owned(),
            total,
            available,
            locked: total.sub(&available),
            snapshot_at: now(),
        }
    }

    /// `Balance::new`, or `None` where `total - available` overflows.
    pub fn checked_new(asset: &str, total: Decimal, available: Decimal) -> (b: Option<Self>)
        ensures
            b is Some <==> locked_defined(total, available),
            b is Some ==> b->0.asset@ == asset@ && b->0.total == total && b->0.available == available
                && b->0.locked.has_parts(
                rd_checked_sub(total.mant(), total.exp() as int, available.mant(), available.exp() as int)->0,
            ),
            (total.mant() == available.mant() && total.exp() == available.exp()) ==> b is Some
                && b->0.locked.mant() == 0,
    {
        match total.checked_sub(&available) {
            Some(_) => Some(Balance::new(asset, total, available)),
            None => None,
        }
    }
}

/// Position information.
#[derive(Debug, Clone)]
pub struct Position {
    pub market: String,
    pub size: Decimal,
    pub side: PositionSide,
    pub entry_price: Decimal,
    pub mark_price: Decimal,
    pub unrealized_pnl: Decimal,
    pub leverage: Decimal,
    pub margin_type: MarginType,
    pub updated_at: Timestamp,
}

#[derive(Clone, Copy, Debug, PartialEq, Eq, Structural)]
pub enum PositionSide {
    Long,
    Short,
}

#[derive(Clone, Copy, Debug, PartialEq, Eq, Structural)]
pub enum MarginType {
    Cross,
    Isolated,
}

} // verus!
