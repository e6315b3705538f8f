//! Trade history: aggregates over fills and history queries.
use crate::decimal::{rd_checked_add, rd_checked_mul, Decimal};
use crate::fill::Fill;
use crate::text::{join2, owned};
use crate::time::{now, Timestamp};
use vstd::prelude::*;

verus! {

#[derive(Debug, Clone, PartialEq, Eq)]
pub enum HistoryError {
    StorageError(String),
    QueryError(String),
}

/// The text of a history error.
pub open spec fn history_error_text(e: HistoryError) -> Seq<char> {
    match e {
        HistoryError::StorageError(m) => "Storage error: "@ + m@,
        HistoryError::QueryError(m) => "Query error: "@ + m@,
    }
}

impl HistoryError {
    /// The text of the error.
    pub fn text(&self) -> (t: String)
        ensures
            t@ == history_error_text(*self),
    {
        match self {
            HistoryError::StorageError(m) => join2("Storage error: ", m.as_str()),
            HistoryError::QueryError(m) => join2("Query error: ", m.as_str()),
        }
    }
}

/// `acc + d` as mantissa/scale pairs; `None` where it overflows.
pub open spec fn add_parts(acc: Option<(int, int)>, d: Option<(int, int)>) -> Option<(int, int)> {
    match (acc, d) {
        (Some(a), Some(b)) => rd_checked_add(a.0, a.1, b.0, b.1),
        _ => None,
    }
}

/// The notional value of a fill; `None` where `price * size` overflows.
pub open spec fn notional_parts(f: Fill) -> Option<(int, int)> {
    rd_checked_mul(f.price.mant(), f.price.exp() as int, f.size.mant(), f.size.exp() as int)
}

/// Sum, from zero and in order, of the notional values of `fills`.
pub open spec fn volume_sum(fills: Seq<Fill>) -> Option<(int, int)>
    decreases fills.len(),
{
    if fills.len() == 0 {
        Some((0, 0))
    } else {
        add_parts(volume_sum(fills.drop_last()), notional_parts(fills.last()))
    }
}

/// Sum, from zero and in order, of the fees of `fills`.
pub open spec fn fee_sum(fills: Seq<Fill>) -> Option<(int, int)>
    decreases fills.len(),
{
    if fills.len() == 0 {
        Some((0, 0))
    } else {
        add_parts(fee_sum(fills.drop_last()), Some(fills.last().fee.parts()))
    }
}

/// Total notional volume of `fills`, or `None` where the decimal arithmetic
/// overflows (where summing with `+` would panic).
pub fn checked_total_volume(fills: &Vec<Fill>) -> (r: Option<Decimal>)
    ensures
        match volume_sum(fills@) {
            Some(p) => r is Some && r->0.has_parts(p),
            None => r is None,
        },
{
    let mut sum = Decimal::zero();
    let mut i: usize = 0;
    while i < fills.len()
        invariant
            i <= fills@.len(),
            volume_sum(fills@.take(i as int)) == Some(sum.parts()),
        decreases fills.len() - i,
    {
        proof {
            let t = fills@.take(i + 1);
            assert(t.drop_last() == fills@.take(i as int));
            assert(t.last() == fills@[i as int]);
        }
        let n = match fills[i].checked_notional() {
            Some(n) => n,
            None => {
                proof {
                    assert(volume_sum(fills@.take(i + 1)) is None);
                    lemma_volume_none_extends(fills@, i as int + 1);
                }
                return None;
            },
        };
        sum = match sum.checked_add(&n) {
            Some(s) => s,
            None => {
                proof {
                    lemma_volume_none_extends(fills@, i as int + 1);
                }
                return None;
            },
        };
        i = i + 1;
    }
    proof {
        assert(fills@.take(fills@.len() as int) == fills@);
    }
    Some(sum)
}

/// Once the running volume overflows, the whole volume does.
proof fn lemma_volume_none_extends(fills: Seq<Fill>, k: int)
    requires
        0 <= k <= fills.len(),
        volume_sum(fills.take(k)) is None,
    ensures
        volume_sum(fills) is None,
    decreases fills.len() - k,
{
    if k < fills.len() {
        let t = fills.take(k + 1);
        assert(t.drop_last() == fills.take(k));
        lemma_volume_none_extends(fills, k + 1);
    } else {
        assert(fills.take(k) == fills);
    }
}

/// Once the running fee total overflows, the whole total does.
proof fn lemma_fees_none_extends(fills: Seq<Fill>, k: int)
    requires
        0 <= k <= fills.len(),
        fee_sum(fills.take(k)) is None,
    ensures
        fee_sum(fills) is None,
    decreases fills.len() - k,
{
    if k < fills.len() {
        let t = fills.take(k + 1);
        assert(t.drop_last() == fills.take(k));
        lemma_fees_none_extends(fills, k + 1);
    } else {
        assert(fills.take(k) == fills);
    }
}

/// Total notional volume (`price * size`, summed) of `fills`.
pub fn total_volume(fills: &Vec<Fill>) -> (r: Decimal)
    requires
        volume_sum(fills@) is Some,
    ensures
        r.has_parts(volume_sum(fills@)->0),
{
    checked_total_volume(fills).unwrap()
}

/// Total fees of `fills`, or `None` where the sum overflows.
pub fn checked_total_fees(fills: &Vec<Fill>) -> (r: Option<Decimal>)
    ensures
        match fee_sum(fills@) {
            Some(p) => r is Some && r->0.has_parts(p),
            None => r is None,
        },
{
    let mut sum = Decimal::zero();
    let mut i: usize = 0;
    while i < fills.len()
        invariant
            i <= fills@.len(),
            fee_sum(fills@.take(i as int)) == Some(sum.parts()),
        decreases fills.len() - i,
    {
        proof {
            let t = fills@.take(i + 1);
            assert(t.drop_last() == fills@.take(i as int));
            assert(t.last() == fills@[i as int]);
        }
        sum = match sum.checked_add(&fills[i].fee) {
            Some(s) => s,
            None => {
                proof {
                    lemma_fees_none_extends(fills@, i as int + 1);
                }
                return None;
            },
        };
        i = i + 1;
    }
    proof {
        assert(fills@.take(fills@.len() as int) == fills@);
    }
    Some(sum)
}

/// Total fees of `fills`.
pub fn total_fees(fills: &Vec<Fill>) -> (r: Decimal)
    requires
        fee_sum(fills@) is Some,
    ensures
        r.has_parts(fee_sum(fills@)->0),
{
    checked_total_fees(fills).unwrap()
}

/// Query of the trade history.
#[derive(Debug, Clone)]
pub struct HistoryQuery {
    pub market: Option<String>,
    pub start: Option<Timestamp>,
    pub end: Option<Timestamp>,
    pub limit: Option<usize>,
    pub offset: Option<usize>,
}

/// Midnight (UTC) of the day of `t`.
pub open spec fn day_start_of(t: Timestamp) -> Timestamp {
    Timestamp { secs: (t.secs - t.secs % 86400) as i64, nanos: 0 }
}

/// Midnight (UTC) of the day of `t`: the start of today's fills.
pub fn day_start(t: Timestamp) -> (s: Timestamp)
    requires
        t.in_range(),
    ensures
        s == day_start_of(t),
{
    let rem: i64 = if t.secs >= 0 {
        ((t.secs as u64) % 86400) as i64
    } else {
        let a: u64 = (-(t.secs + 1)) as u64;
        let ra: u64 = a % 86400;
        proof {
            assert(t.secs % 86400 == 86399 - ra) by (nonlinear_arith)
                requires
                    t.secs == -(a + 1),
                    ra == a % 86400,
                    a >= 0,
            {
                let q = a / 86400;
                assert(a == q * 86400 + ra);
                assert(t.secs == (-q - 1) * 86400 + (86399 - ra));
            }
        }
        (86399 - ra) as i64
    };
    Timestamp { secs: t.secs - rem, nanos: 0 }
}

/// Seconds in `hours` hours.
pub open spec fn hours_secs(hours: int) -> int {
    hours * 3600
}

impl HistoryQuery {
    /// A query with no constraint.
    pub fn new() -> (q: Self)
        ensures
            q.market is None && q.start is None && q.end is None && q.limit is None && q.offset is None,
    {
        HistoryQuery { market: None, start: None, end: None, limit: None, offset: None }
    }

    pub fn market(self, market: &str) -> (q: Self)
        ensures
            q.market is Some && q.market->0@ == market@,
            q.start == self.start && q.end == self.end && q.limit == self.limit && q.offset == self.offset,
    {
        let mut q = self;
        q.market = Some(owned(market));
        q
    }

    pub fn time_range(self, start: Timestamp, end: Timestamp) -> (q: Self)
        ensures
            q == (HistoryQuery { start: Some(start), end: Some(end), ..self }),
    {
        let mut q = self;
        q.start = Some(start);
        q.end = Some(end);
        q
    }

    /// The last `hours` hours up to now.
    pub fn last_hours(self, hours: i64) -> (q: Self)
        requires
            -2_562_047_788_015 <= hours <= 2_562_047_788_015,
        ensures
            q.end is Some && q.start is Some,
            q.start->0.secs == q.end->0.secs - hours_secs(hours as int),
            q.start->0.nanos == q.end->0.nanos,
            q.market == self.market && q.limit == self.limit && q.offset == self.offset,
    {
        let end = now();
        let start = end.plus_seconds(-(hours * 3600));
        let mut q = self;
        q.start = Some(start);
        q.end = Some(end);
        q
    }

    pub fn limit(self, limit: usize) -> (q: Self)
        ensures
            q == (HistoryQuery { limit: Some(limit), ..self }),
    {
        let mut q = self;
        q.limit = Some(limit);
        q
    }

    pub fn offset(self, offset: usize) -> (q: Self)
        ensures
            q == (HistoryQuery { offset: Some(offset), ..self }),
    {
        let mut q = self;
        q.offset = Some(offset);
        q
    }
}

impl Default for HistoryQuery {
    fn default() -> (q: Self)
        ensures
            q.market is None && q.start is None && q.end is None && q.limit is None && q.offset is None,
    {
        HistoryQuery::new()
    }
}

/// The start of a day is midnight at or before the instant, less than a day
/// earlier, and the same for every instant of that day.
pub proof fn lemma_day_start_bounds(t: Timestamp)
    requires
        t.in_range(),
    ensures
        day_start_of(t).secs <= t.secs < day_start_of(t).secs + 86400,
        day_start_of(t).secs % 86400 == 0,
        day_start_of(t).nanos == 0,
{
}

} // verus!
