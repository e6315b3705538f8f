//! Fills (trade executions).
use crate::decimal::{rd_checked_mul, Decimal};
use crate::order::Side;
use crate::time::Timestamp;
use vstd::prelude::*;

verus! {

/// A single, partial or complete, execution of an order.
#[derive(Debug, Clone)]
pub struct Fill {
    pub fill_id: String,
    pub order_hash: String,
    pub market: String,
    pub side: Side,
    pub price: Decimal,
    pub size: Decimal,
    pub fee: Decimal,
    pub fee_asset: String,
    pub filled_at: Timestamp,
}

impl Fill {
    /// `price * size` does not overflow.
    pub open spec fn notional_defined(self) -> bool {
        rd_checked_mul(self.price.mant(), self.price.exp() as int, self.size.mant(), self.size.exp() as int) is Some
    }

    /// The notional value of the fill, `price * size`.
    pub fn notional(&self) -> (d: Decimal)
        requires
            self.notional_defined(),
        ensures
            d.has_parts(
                rd_checked_mul(self.price.mant(), self.price.exp() as int, self.size.mant(), self.size.exp() as int)->0,
            ),
    {
        self.price.mul(&self.size)
    }

    /// The notional value, or `None` where `price * size` overflows.
    pub fn checked_notional(&self) -> (d: Option<Decimal>)
        ensures
            d is Some <==> self.notional_defined(),
            d is Some ==> d->0.has_parts(
                rd_checked_mul(self.price.mant(), self.price.exp() as int, self.size.mant(), self.size.exp() as int)->0,
            ),
    {
        match self.price.checked_mul(&self.size) {
            Some(_) => Some(self.notional()),
            None => None,
        }
    }
}

/// A trade history record.
#[derive(Debug, Clone)]
pub struct TradeRecord {
    pub trade_id: String,
    pub order_hash: String,
    pub market: String,
    pub side: Side,
    pub price: Decimal,
    pub size: Decimal,
    pub fee: Decimal,
    pub realized_pnl: Option<Decimal>,
    pub executed_at: Timestamp,
}

} // verus!
