use bluefin_bot::decimal::Decimal;
use bluefin_bot::fill::Fill;
use bluefin_bot::history::{
    checked_total_fees, checked_total_volume, day_start, total_fees, total_volume, HistoryError, HistoryQuery,
};
use bluefin_bot::order::Side;
use bluefin_bot::time::Timestamp;

fn fill(price: Decimal, size: Decimal, fee: Decimal) -> Fill {
    Fill {
        fill_id: "f".to_string(),
        order_hash: "h".to_string(),
        market: "ETH-PERP".to_string(),
        side: Side::Buy,
        price,
        size,
        fee,
        fee_asset: "USDC".to_string(),
        filled_at: Timestamp { secs: 0, nanos: 0 },
    }
}

#[test]
fn volume_is_the_sum_of_notionals() {
    let fills = vec![
        fill(Decimal::new(2000, 0), Decimal::new(15, 1), Decimal::new(3, 1)),
        fill(Decimal::new(100, 0), Decimal::new(2, 0), Decimal::new(1, 2)),
    ];
    assert_eq!(total_volume(&fills), Decimal::new(3200, 0));
    assert_eq!(total_fees(&fills), Decimal::new(31, 2));
    assert_eq!(checked_total_volume(&fills), Some(Decimal::new(3200, 0)));
    assert_eq!(checked_total_fees(&vec![]), Some(Decimal::new(0, 0)));
    assert_eq!(fills[0].notional(), Decimal::new(3000, 0));
}

#[test]
fn days_start_at_midnight() {
    assert_eq!(day_start(Timestamp { secs: 86_400 * 3 + 5, nanos: 7 }), Timestamp { secs: 86_400 * 3, nanos: 0 });
    assert_eq!(day_start(Timestamp { secs: -1, nanos: 0 }), Timestamp { secs: -86_400, nanos: 0 });
    assert_eq!(day_start(Timestamp { secs: 0, nanos: 0 }), Timestamp { secs: 0, nanos: 0 });
}

#[test]
fn queries_are_built_step_by_step() {
    let q = HistoryQuery::new().market("ETH-PERP").limit(10).offset(5);
    assert_eq!(q.market, Some("ETH-PERP".to_string()));
    assert_eq!(q.limit, Some(10));
    assert_eq!(q.offset, Some(5));
    let q = HistoryQuery::default().last_hours(2);
    let (s, e) = (q.start.unwrap(), q.end.unwrap());
    assert_eq!(e.secs - s.secs, 7200);
    let q = q.time_range(Timestamp { secs: 1, nanos: 0 }, Timestamp { secs: 2, nanos: 0 });
    assert_eq!(q.start.unwrap().secs, 1);
    assert_eq!(HistoryError::QueryError("q".to_string()).text(), "Query error: q");
}
