use bluefin_bot::event::{MarketEvent, TickerEvent};
use bluefin_bot::intent::{IntentPriceSpec, IntentSizeSpec, Strategy, StrategyContext};
use bluefin_bot::json::Json;
use bluefin_bot::order::{OrderType, Side, TimeInForce};
use bluefin_bot::strategy::ExampleStrategy;
use bluefin_bot::time::Timestamp;

fn ticker(market: &str) -> MarketEvent {
    MarketEvent::Ticker(TickerEvent { market: market.to_string(), payload: Json::Null, received_at: Timestamp { secs: 1, nanos: 0 } })
}

#[test]
fn example_strategy_buys_on_its_market() {
    let mut s = ExampleStrategy::new("ETH-PERP");
    assert_eq!(s.strategy_id(), "example");
    let ctx = StrategyContext { now: Timestamp { secs: 42, nanos: 0 } };
    let intents = s.on_event(&ctx, ticker("ETH-PERP"));
    assert_eq!(intents.len(), 1);
    let i = &intents[0];
    assert_eq!(i.strategy_id, "example");
    assert_eq!(i.market, "ETH-PERP");
    assert_eq!(i.side, Side::Buy);
    assert_eq!(i.order_type, OrderType::Market);
    assert_eq!(i.time_in_force, TimeInForce::Ioc);
    assert!(matches!(i.price_spec, IntentPriceSpec::Market));
    assert!(matches!(i.size_spec, IntentSizeSpec::Quantity(q) if q.mantissa() == 1 && q.scale() == 0));
    assert_eq!(i.tags, vec!["example".to_string()]);
    assert_eq!(i.created_at, ctx.now);
    assert_eq!(i.intent_id.len(), 36);
    assert_eq!(&i.intent_id[14..15], "4");
    let again = s.on_event(&ctx, ticker("ETH-PERP"));
    assert_ne!(again[0].intent_id, i.intent_id);
}

#[test]
fn example_strategy_ignores_other_markets() {
    let mut s = ExampleStrategy::new("ETH-PERP");
    let ctx = StrategyContext { now: Timestamp { secs: 0, nanos: 0 } };
    assert!(s.on_event(&ctx, ticker("BTC-PERP")).is_empty());
}
