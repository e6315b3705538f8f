//! An example strategy: a market buy of one unit on every event of its market.
use crate::decimal::Decimal;
use crate::event::MarketEvent;
use crate::intent::{Intent, IntentPriceSpec, IntentSizeSpec, Strategy, StrategyContext};
use crate::order::{OrderType, Side, TimeInForce};
use crate::text::{owned, str_eq};
use vstd::prelude::*;

verus! {

/// Lowercase hexadecimal digit.
pub open spec fn is_lower_hex(c: char) -> bool {
    ('0' <= c && c <= '9') || ('a' <= c && c <= 'f')
}

/// The hyphenated text of a random (version 4) UUID: 32 lowercase
/// hexadecimal digits in groups of 8, 4, 4, 4 and 12, the version digit `4`
/// and a variant digit among `8`, `9`, `a` and `b`.
pub open spec fn is_uuid_v4_text(s: Seq<char>) -> bool {
    &&& s.len() == 36
    &&& forall|i: int|
        0 <= i < 36 ==> (if i == 8 || i == 13 || i == 18 || i == 23 {
            s[i] == '-'
        } else {
            is_lower_hex(#[trigger] s[i])
        })
    &&& s[14] == '4'
    &&& (s[19] == '8' || s[19] == '9' || s[19] == 'a' || s[19] == 'b')
}

/// `uuid::Uuid::new_v4().to_string()`: a fresh random identifier.
#[verifier::external_body]
fn new_uuid_text() -> (s: String)
    ensures
        is_uuid_v4_text(s@),
{
    uuid::Uuid::new_v4().to_string()
}

/// The market an event is for.
pub open spec fn event_market(event: MarketEvent) -> String {
    match event {
        MarketEvent::OrderBook(e) => e.market,
        MarketEvent::Trade(e) => e.market,
        MarketEvent::Ticker(e) => e.market,
    }
}

/// Emits one intent for every event of its market.
pub struct ExampleStrategy {
    id: String,
    market: String,
    side: Side,
    order_type: OrderType,
    tif: TimeInForce,
    post_only: bool,
    reduce_only: bool,
}

impl ExampleStrategy {
    pub closed spec fn spec_id(&self) -> Seq<char> {
        self.id@
    }

    pub closed spec fn spec_market(&self) -> Seq<char> {
        self.market@
    }

    /// The side, type, time-in-force, post-only and reduce-only settings.
    pub closed spec fn spec_settings(&self) -> (Side, OrderType, TimeInForce, bool, bool) {
        (self.side, self.order_type, self.tif, self.post_only, self.reduce_only)
    }

    /// The intent the strategy emits for an event of its market: a fresh
    /// identifier, the strategy's settings, a market price and a size of one,
    /// no cancellation timer, tagged `example`, created at the context's time.
    pub open spec fn emits(&self, intent: Intent, ctx: StrategyContext) -> bool {
        let (side, order_type, tif, post_only, reduce_only) = self.spec_settings();
        &&& is_uuid_v4_text(intent.intent_id@)
        &&& intent.strategy_id@ == self.spec_id()
        &&& intent.market@ == self.spec_market()
        &&& intent.side == side
        &&& intent.order_type == order_type
        &&& intent.price_spec == IntentPriceSpec::Market
        &&& intent.size_spec matches IntentSizeSpec::Quantity(q) && q.mant() == 1 && q.exp() == 0
        &&& intent.time_in_force == tif
        &&& intent.post_only == post_only
        &&& intent.reduce_only == reduce_only
        &&& intent.cancel_after_ms is None
        &&& intent.tags@.len() == 1 && intent.tags@[0]@ == "example"@
        &&& intent.created_at == ctx.now
    }

    /// A strategy for `market`, with the identifier `example`, that buys at
    /// market, immediate-or-cancel.
    pub fn new(market: &str) -> (s: Self)
        ensures
            s.spec_id() == "example"@,
            s.spec_market() == market@,
            s.spec_settings() == (Side::Buy, OrderType::Market, TimeInForce::Ioc, false, false),
    {
        ExampleStrategy {
            id: owned("example"),
            market: owned(market),
            side: Side::Buy,
            order_type: OrderType::Market,
            tif: TimeInForce::Ioc,
            post_only: false,
            reduce_only: false,
        }
    }
}

impl Strategy for ExampleStrategy {
    fn strategy_id(&self) -> (s: &str)
        ensures
            s@ == self.spec_id(),
    {
        self.id.as_str()
    }

    fn on_event(&mut self, ctx: &StrategyContext, event: MarketEvent) -> (r: Vec<Intent>)
        ensures
            *final(self) == *old(self),
            event_market(event)@ == old(self).spec_market() ==> r@.len() == 1 && old(self).emits(
                r@[0],
                *ctx,
            ),
            event_market(event)@ != old(self).spec_market() ==> r@.len() == 0,
    {
        let market = match event {
            MarketEvent::OrderBook(e) => e.market,
            MarketEvent::Trade(e) => e.market,
            MarketEvent::Ticker(e) => e.market,
        };
        if !str_eq(market.as_str(), self.market.as_str()) {
            return Vec::new();
        }
        let mut tags: Vec<String> = Vec::new();
        tags.push(owned("example"));
        let mut intents: Vec<Intent> = Vec::new();
        intents.push(
            Intent {
                intent_id: new_uuid_text(),
                strategy_id: self.id.clone(),
                market,
                side: self.side,
                order_type: self.order_type,
                price_spec: IntentPriceSpec::Market,
                size_spec: IntentSizeSpec::Quantity(Decimal::one()),
                time_in_force: self.tif,
                post_only: self.post_only,
                reduce_only: self.reduce_only,
                cancel_after_ms: None,
                tags,
                created_at: ctx.now,
            },
        );
        intents
    }
}

} // verus!
