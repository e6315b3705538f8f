//! Plans of several orders.
use vstd::prelude::*;

verus! {

#[derive(Debug, Clone)]
pub struct Plan {
    pub orders: Vec<PlanOrder>,
}

#[derive(Debug, Clone)]
pub struct PlanOrder {
    pub id: String,
    pub market: String,
    pub side: String,
    pub order_type: String,
    pub price_mode: String,
    pub price_bps: Option<String>,
    pub price_e9: Option<String>,
    pub size_mode: String,
    pub quantity: Option<String>,
    pub tif: String,
    pub post_only: bool,
    pub reduce_only: bool,
    pub cancel_after_ms: Option<u64>,
}

} // verus!
