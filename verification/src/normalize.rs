//! Normalization of strategy intents into order requests that respect a
//! market's tick size, step size and minimum quantity.
use crate::decimal::{
    aligned_sum, div_half_even, lemma_pow10_add, lemma_pow10_positive, max_scale, pow10, rd_checked_add, rd_checked_div, rd_checked_mul, rd_checked_sub,
    representable, round_half_even, value_eq, Decimal, MAX_MANTISSA,
};
use crate::exec::{is_validation_error, ExecError};
use crate::intent::{Intent, IntentPriceSpec, IntentSizeSpec};
use crate::market_meta::{first_index_of_market, MarketMeta, MarketSnapshot};
use crate::order::{OrderRequest, OrderType};
use crate::text::{i64_text, int_text, join2, join3, owned};
use vstd::prelude::*;

verus! {

/// What to do with a value that is not a multiple of its step.
#[derive(Debug, Clone, Copy, PartialEq, Eq, Structural)]
pub enum PolicyMode {
    /// Move it to a multiple of the step.
    Snap,
    /// Refuse it.
    Reject,
}

/// Direction in which to snap.
#[derive(Debug, Clone, Copy, PartialEq, Eq, Structural)]
pub enum RoundingMode {
    Down,
    Up,
    Nearest,
}

/// How intents are fitted to a market's constraints.
#[derive(Debug, Clone, Copy)]
pub struct NormalizationPolicy {
    pub price_policy: PolicyMode,
    pub size_policy: PolicyMode,
    pub price_rounding: RoundingMode,
    pub size_rounding: RoundingMode,
    pub max_deviation_bps: i64,
}

/// 10^9, the scale of the `_e9` integer representation.
pub const E9: i128 = 1_000_000_000i128;

/// Quotient of `v / s` truncated toward zero (Rust's `/` on integers), `s > 0`.
pub open spec fn tquot(v: int, s: int) -> int {
    if v >= 0 {
        v / s
    } else {
        -((-v) / s)
    }
}

/// Remainder with the sign of `v` (Rust's `%` on integers), `s > 0`.
pub open spec fn trem(v: int, s: int) -> int {
    if v >= 0 {
        v % s
    } else {
        -((-v) % s)
    }
}

/// The value `snap_value` gives: `v` itself where it is a multiple of `step` or
/// `step` is not positive; otherwise the multiple of `step` next to `v` toward
/// zero (`Down`), that one plus one step (`Up`), or the former unless the
/// remainder is at least half a step (`Nearest`).
pub open spec fn snapped(v: int, step: int, mode: RoundingMode) -> int {
    if step <= 0 || trem(v, step) == 0 {
        v
    } else {
        let base = tquot(v, step) * step;
        match mode {
            RoundingMode::Down => base,
            RoundingMode::Up => base + step,
            RoundingMode::Nearest => if 2 * trem(v, step) >= step {
                base + step
            } else {
                base
            },
        }
    }
}

/// `snap_value` computes without overflowing `i128`.
pub open spec fn snap_in_range(v: int, step: int, mode: RoundingMode) -> bool {
    step <= 0 || trem(v, step) == 0 || match mode {
        RoundingMode::Down => true,
        RoundingMode::Up => step - trem(v, step) <= i128::MAX && snapped(v, step, mode)
            <= i128::MAX,
        RoundingMode::Nearest => i128::MIN <= 2 * trem(v, step) <= i128::MAX && (2 * trem(v, step)
            >= step ==> step - trem(v, step) <= i128::MAX && snapped(v, step, mode) <= i128::MAX),
    }
}

proof fn lemma_trem(v: int, s: int)
    requires
        s > 0,
    ensures
        v == tquot(v, s) * s + trem(v, s),
        v >= 0 ==> 0 <= trem(v, s) < s,
        v < 0 ==> -s < trem(v, s) <= 0,
{
    if v >= 0 {
        vstd::arithmetic::div_mod::lemma_fundamental_div_mod(v, s);
        vstd::arithmetic::div_mod::lemma_mod_pos_bound(v, s);
        assert(v == (v / s) * s + v % s) by (nonlinear_arith)
            requires
                v == s * (v / s) + v % s,
        ;
    } else {
        let w = -v;
        vstd::arithmetic::div_mod::lemma_fundamental_div_mod(w, s);
        vstd::arithmetic::div_mod::lemma_mod_pos_bound(w, s);
        let q = w / s;
        let r = w % s;
        assert(v == (-q) * s + (-r)) by (nonlinear_arith)
            requires
                w == s * q + r,
                v == -w,
        ;
    }
}

/// Moves `value_e9` to a multiple of `step_e9` in the direction `mode` gives.
pub fn snap_value(value_e9: i128, step_e9: i128, mode: RoundingMode) -> (r: i128)
    requires
        snap_in_range(value_e9 as int, step_e9 as int, mode),
    ensures
        r == snapped(value_e9 as int, step_e9 as int, mode),
{
    if step_e9 <= 0 {
        return value_e9;
    }
    proof {
        lemma_trem(value_e9 as int, step_e9 as int);
    }
    let remainder = value_e9 % step_e9;
    if remainder == 0 {
        return value_e9;
    }
    match mode {
        RoundingMode::Down => value_e9 - remainder,
        RoundingMode::Up => value_e9 + (step_e9 - remainder),
        RoundingMode::Nearest => {
            if remainder * 2 >= step_e9 {
                value_e9 + (step_e9 - remainder)
            } else {
                value_e9 - remainder
            }
        },
    }
}

/// A snapped value is a multiple of the step, lies within one step of the
/// unsnapped value, and `Down` never increases a non-negative value while `Up`
/// never decreases it.
pub proof fn lemma_snapped_aligned(v: int, step: int, mode: RoundingMode)
    requires
        step > 0,
    ensures
        snapped(v, step, mode) % step == 0,
        v >= 0 ==> -step < snapped(v, step, mode) - v < step,
        v >= 0 && mode == RoundingMode::Down ==> 0 <= snapped(v, step, mode) <= v,
        v >= 0 && mode == RoundingMode::Up ==> v <= snapped(v, step, mode),
        v >= 0 && mode == RoundingMode::Nearest ==> 2 * (snapped(v, step, mode) - v) <= step
            && 2 * (v - snapped(v, step, mode)) < step,
{
    lemma_trem(v, step);
    let q = tquot(v, step);
    vstd::arithmetic::div_mod::lemma_mod_multiples_basic(q, step);
    vstd::arithmetic::div_mod::lemma_mod_multiples_basic(q + 1, step);
    assert((q + 1) * step == q * step + step) by (nonlinear_arith);
}

/// `Decimal::from(v) / Decimal::from(10^9)` as a mantissa/scale pair; `None`
/// where it panics.
pub open spec fn e9_parts(v: int) -> Option<(int, int)> {
    if representable(v, 0) {
        rd_checked_div(v, 0, 1_000_000_000, 0)
    } else {
        None
    }
}

/// `(value * 10^9).round()` as an integer; `None` where the product overflows.
pub open spec fn to_e9(p: (int, int)) -> Option<int> {
    match rd_checked_mul(p.0, p.1, 1_000_000_000, 0) {
        Some(q) => Some(round_half_even(q.0, q.1 as nat)),
        None => None,
    }
}

/// Relative deviation of `snapped` from `value`, in basis points rounded half to
/// even: outer `None` where a decimal operation panics, inner `None` where the
/// result does not fit in an `i64`.
pub open spec fn deviation_bps(value: int, snapped_value: int) -> Option<Option<int>> {
    match (e9_parts(value), e9_parts(snapped_value)) {
        (Some(o), Some(a)) => match rd_checked_sub(o.0, o.1, a.0, a.1) {
            Some(d) => {
                let ad = if d.0 < 0 {
                    -d.0
                } else {
                    d.0
                };
                match rd_checked_div(ad, d.1, o.0, o.1) {
                    Some(q) => match rd_checked_mul(q.0, q.1, 10000, 0) {
                        Some(b) => {
                            let r = round_half_even(b.0, b.1 as nat);
                            if i64::MIN <= r <= i64::MAX {
                                Some(Some(r))
                            } else {
                                Some(None)
                            }
                        },
                        None => None,
                    },
                    None => None,
                }
            },
            None => None,
        },
        _ => None,
    }
}

/// Message of a deviation above the maximum.
pub open spec fn deviation_message(label: Seq<char>, bps: int, max_bps: int) -> Seq<char> {
    label + " deviation "@ + int_text(bps) + " bps exceeds max "@ + int_text(max_bps) + " bps"@
}

/// What `enforce_policy` returns: `None` where it panics, otherwise the aligned
/// value or the message of the validation error.
pub open spec fn enforced(
    v: int,
    step: int,
    policy: PolicyMode,
    rounding: RoundingMode,
    max_deviation_bps: int,
    label: Seq<char>,
) -> Option<Result<int, Seq<char>>> {
    if step <= 0 || trem(v, step) == 0 {
        Some(Ok(v))
    } else {
        match policy {
            PolicyMode::Reject => Some(Err(label + " is not aligned with step"@)),
            PolicyMode::Snap => if !snap_in_range(v, step, rounding) {
                None
            } else if v > 0 && max_deviation_bps > 0 {
                match deviation_bps(v, snapped(v, step, rounding)) {
                    None => None,
                    Some(None) => Some(Err("Failed to compute bps"@)),
                    Some(Some(b)) => if b > max_deviation_bps {
                        Some(Err(deviation_message(label, b, max_deviation_bps)))
                    } else {
                        Some(Ok(snapped(v, step, rounding)))
                    },
                }
            } else {
                Some(Ok(snapped(v, step, rounding)))
            },
        }
    }
}

/// Whatever a policy lets through lies on the step (for a positive step): it
/// was aligned already, or it is the snapped value; and a positive value that
/// was snapped deviates from its snapped value by at most the maximum
/// deviation, where one is set.
pub proof fn lemma_enforced_is_aligned(
    v: int,
    step: int,
    policy: PolicyMode,
    rounding: RoundingMode,
    max_deviation_bps: int,
    label: Seq<char>,
)
    requires
        step > 0,
        enforced(v, step, policy, rounding, max_deviation_bps, label) matches Some(Ok(_)),
    ensures
        ({
            let x = enforced(v, step, policy, rounding, max_deviation_bps, label)->0->Ok_0;
            &&& x % step == 0
            &&& x == v || (policy == PolicyMode::Snap && x == snapped(v, step, rounding))
            &&& (x != v && v > 0 && max_deviation_bps > 0) ==> (deviation_bps(v, x) matches Some(
                Some(b),
            ) && b <= max_deviation_bps)
        }),
{
    lemma_trem(v, step);
    lemma_snapped_aligned(v, step, rounding);
    if trem(v, step) == 0 {
        vstd::arithmetic::div_mod::lemma_mod_multiples_basic(tquot(v, step), step);
    }
}

/// `r` is what `outcome` describes.
pub open spec fn matches_outcome(r: Result<i128, ExecError>, outcome: Result<int, Seq<char>>) -> bool {
    match outcome {
        Ok(v) => r is Ok && r->Ok_0 == v,
        Err(m) => r is Err && is_validation_error(r->Err_0, m),
    }
}

/// The whole number of 10^-9 units `value` stands for, where `value * 10^9`
/// is a whole number that fits in 96 bits.
pub open spec fn exact_e9(value: Decimal) -> Option<int> {
    let scaled = value.mant() * 1_000_000_000;
    if scaled % pow10(value.exp()) == 0 && representable(scaled / pow10(value.exp()), 0) {
        Some(scaled / pow10(value.exp()))
    } else {
        None
    }
}

/// Rounding a whole number of units is exact.
proof fn lemma_round_exact(n: int, s: nat)
    requires
        n % pow10(s) == 0,
    ensures
        round_half_even(n, s) == n / pow10(s),
{
    let p = pow10(s);
    lemma_pow10_positive(s);
    let q = n / p;
    vstd::arithmetic::div_mod::lemma_fundamental_div_mod(n, p);
    assert(n == p * q);
    assert(n == q * p) by (nonlinear_arith)
        requires
            n == p * q,
    ;
    if n < 0 {
        assert(-n == p * (-q)) by (nonlinear_arith)
            requires
                n == q * p,
        ;
        vstd::arithmetic::div_mod::lemma_div_multiples_vanish(-q, p);
        vstd::arithmetic::div_mod::lemma_mod_multiples_basic(-q, p);
        assert((-q) * p == p * (-q)) by (nonlinear_arith);
        assert(div_half_even(-n, p) == -q);
    }
}

/// A decimal `(q, t)` equal in value to `x * 10^s / 10^s` rounds to `x`.
proof fn lemma_round_of_whole(q: int, t: nat, x: int, s: nat)
    requires
        q * pow10(s) == (x * pow10(s)) * pow10(t),
    ensures
        round_half_even(q, t) == x,
{
    let ps = pow10(s);
    let pt = pow10(t);
    lemma_pow10_positive(s);
    lemma_pow10_positive(t);
    assert(q == x * pt) by (nonlinear_arith)
        requires
            q * ps == (x * ps) * pt,
            ps >= 1,
    ;
    vstd::arithmetic::div_mod::lemma_mod_multiples_basic(x, pt);
    vstd::arithmetic::div_mod::lemma_div_multiples_vanish(x, pt);
    assert(x * pt == pt * x) by (nonlinear_arith);
    lemma_round_exact(q, t);
}

/// The integer `round(value * 10^9)`, where the product does not overflow.  A
/// value that stands for a whole number of 10^-9 units gives that number.
pub fn decimal_to_e9(value: Decimal) -> (r: Result<i128, ExecError>)
    requires
        to_e9(value.parts()) is Some,
    ensures
        r == Ok::<i128, ExecError>(to_e9(value.parts())->0 as i128),
        -MAX_MANTISSA <= to_e9(value.parts())->0 <= MAX_MANTISSA,
        exact_e9(value) is Some ==> r == Ok::<i128, ExecError>(exact_e9(value)->0 as i128),
{
    let scaled = value.mul(&Decimal::from_u64(1_000_000_000u64));
    proof {
        if exact_e9(value) is Some {
            let n = value.mant() * 1_000_000_000;
            let p = pow10(value.exp());
            let x = n / p;
            lemma_pow10_positive(value.exp());
            vstd::arithmetic::div_mod::lemma_fundamental_div_mod(n, p);
            assert(n == x * p) by (nonlinear_arith)
                requires
                    n == p * (n / p) + n % p,
                    n % p == 0,
                    x == n / p,
            ;
            if value.mant() != 0 {
                assert(value_eq(scaled.mant(), scaled.exp(), n, value.exp()));
                lemma_round_of_whole(scaled.mant(), scaled.exp(), x, value.exp());
            } else {
                assert(scaled.mant() == 0 && scaled.exp() == 0);
                lemma_round_exact(0, 0);
                assert(n == 0);
                assert(x == 0) by (nonlinear_arith)
                    requires
                        n == 0,
                        x == n / p,
                        p >= 1,
                ;
            }
            assert(pow10(0) == 1);
        }
    }
    let rounded = scaled.round();
    match rounded.to_i128() {
        Some(v) => Ok(v),
        None => Err(ExecError::ValidationError(owned("Failed to convert decimal to e9"))),
    }
}

/// `decimal_to_e9`, or `None` where it panics.
pub fn try_decimal_to_e9(value: Decimal) -> (r: Option<i128>)
    ensures
        r is Some <==> to_e9(value.parts()) is Some,
        r is Some ==> r->0 == to_e9(value.parts())->0,
        r is Some ==> -MAX_MANTISSA <= r->0 <= MAX_MANTISSA,
        exact_e9(value) is Some ==> r == Some(exact_e9(value)->0 as i128),
{
    proof {
        value.lemma_scale_bound();
    }
    match value.checked_mul(&Decimal::from_u64(1_000_000_000u64)) {
        Some(_) => match decimal_to_e9(value) {
            Ok(v) => Some(v),
            Err(_) => None,
        },
        None => None,
    }
}

/// `value / 10^9` as a decimal: exactly `value` units of 10^-9, with a scale
/// of at most 9.
pub fn e9_to_decimal(value: i128) -> (d: Decimal)
    requires
        e9_parts(value as int) is Some,
    ensures
        d.has_parts(e9_parts(value as int)->0),
        value_eq(d.mant(), d.exp(), value as int, 9),
        d.exp() <= 9,
{
    Decimal::from_i128(value).div(&Decimal::from_u64(1_000_000_000u64))
}

/// `e9_to_decimal`, or `None` where it panics, which is exactly where
/// `value` needs more than 96 bits.
pub fn try_e9_to_decimal(value: i128) -> (d: Option<Decimal>)
    ensures
        d is Some <==> e9_parts(value as int) is Some,
        d is Some <==> representable(value as int, 0),
        d is Some ==> d->0.has_parts(e9_parts(value as int)->0) && value_eq(
            d->0.mant(),
            d->0.exp(),
            value as int,
            9,
        ) && d->0.exp() <= 9,
{
    match Decimal::try_from_i128(value) {
        Some(v) => match v.checked_div(&Decimal::from_u64(1_000_000_000u64)) {
            Some(_) => Some(e9_to_decimal(value)),
            None => None,
        },
        None => None,
    }
}

/// An e9 integer converted to a decimal and back is unchanged: the decimal
/// that `e9_to_decimal` gives for `x` (exactly `x` units of 10^-9, scale at
/// most 9) stands for the whole number `x` that `decimal_to_e9` gives back.
pub proof fn lemma_e9_round_trip(x: int, d: Decimal)
    requires
        value_eq(d.mant(), d.exp(), x, 9),
        d.exp() <= 9,
        -MAX_MANTISSA <= x <= MAX_MANTISSA,
    ensures
        exact_e9(d) == Some(x),
{
    let s = d.exp();
    let p = pow10(s);
    assert(pow10(9) == 1_000_000_000) by {
        reveal_with_fuel(pow10, 10);
    }
    lemma_pow10_positive(s);
    let scaled = d.mant() * 1_000_000_000;
    assert(scaled == x * p);
    vstd::arithmetic::div_mod::lemma_mod_multiples_basic(x, p);
    vstd::arithmetic::div_mod::lemma_div_multiples_vanish(x, p);
    assert(x * p == p * x) by (nonlinear_arith);
}

/// Deviation of `snapped_value` from `value` in basis points, as `deviation_bps` describes.
fn checked_deviation(value: i128, snapped_value: i128) -> (r: Option<Option<i64>>)
    ensures
        match deviation_bps(value as int, snapped_value as int) {
            None => r is None,
            Some(None) => r == Some(None::<i64>),
            Some(Some(b)) => r == Some(Some(b as i64)),
        },
{
    let unsnapped = match try_e9_to_decimal(value) {
        Some(d) => d,
        None => return None,
    };
    let adjusted = match try_e9_to_decimal(snapped_value) {
        Some(d) => d,
        None => return None,
    };
    let diff = match unsnapped.checked_sub(&adjusted) {
        Some(d) => d.abs(),
        None => return None,
    };
    let ratio = match diff.checked_div(&unsnapped) {
        Some(d) => d,
        None => return None,
    };
    let bps = match ratio.checked_mul(&Decimal::from_i64(10_000)) {
        Some(d) => d,
        None => return None,
    };
    Some(bps.round().to_i64())
}

/// The validation error with message `message`.
fn validation(message: String) -> (e: ExecError)
    ensures
        is_validation_error(e, message@),
{
    ExecError::ValidationError(message)
}

/// `enforce_policy`: applies `policy` to `value_e9` and `step_e9`, or gives
/// `None` where the computation panics.
pub fn try_enforce_policy(
    value_e9: i128,
    step_e9: i128,
    policy: PolicyMode,
    rounding: RoundingMode,
    max_deviation_bps: i64,
    label: &str,
) -> (r: Option<Result<i128, ExecError>>)
    ensures
        match enforced(value_e9 as int, step_e9 as int, policy, rounding, max_deviation_bps as int, label@) {
            None => r is None,
            Some(o) => r is Some && matches_outcome(r->0, o),
        },
{
    if step_e9 <= 0 {
        return Some(Ok(value_e9));
    }
    if value_e9 % step_e9 == 0 {
        return Some(Ok(value_e9));
    }
    match policy {
        PolicyMode::Reject => Some(Err(validation(join2(label, " is not aligned with step")))),
        PolicyMode::Snap => {
            if !snap_fits(value_e9, step_e9, rounding) {
                return None;
            }
            let snapped_value = snap_value(value_e9, step_e9, rounding);
            if value_e9 > 0 && max_deviation_bps > 0 {
                match checked_deviation(value_e9, snapped_value) {
                    None => None,
                    Some(None) => Some(Err(validation(owned("Failed to compute bps")))),
                    Some(Some(bps)) => {
                        if bps > max_deviation_bps {
                            let head = join3(label, " deviation ", i64_text(bps).as_str());
                            let tail = join3(" bps exceeds max ", i64_text(max_deviation_bps).as_str(), " bps");
                            let msg = join2(head.as_str(), tail.as_str());
                            assert(msg@ =~= deviation_message(label@, bps as int, max_deviation_bps as int));
                            Some(Err(validation(msg)))
                        } else {
                            Some(Ok(snapped_value))
                        }
                    },
                }
            } else {
                Some(Ok(snapped_value))
            }
        },
    }
}

/// Whether `snap_value` computes without overflow.
fn snap_fits(value_e9: i128, step_e9: i128, mode: RoundingMode) -> (b: bool)
    requires
        step_e9 > 0,
    ensures
        b == snap_in_range(value_e9 as int, step_e9 as int, mode),
{
    proof {
        lemma_trem(value_e9 as int, step_e9 as int);
    }
    let remainder = value_e9 % step_e9;
    if remainder == 0 {
        return true;
    }
    let up_ok = remainder >= 0 || step_e9 <= i128::MAX + remainder;
    let up_fits = up_ok && value_e9 <= i128::MAX - (step_e9 - remainder);
    match mode {
        RoundingMode::Down => true,
        RoundingMode::Up => up_fits,
        RoundingMode::Nearest => {
            if remainder > i128::MAX / 2 || remainder < i128::MIN / 2 {
                false
            } else if remainder * 2 >= step_e9 {
                up_fits
            } else {
                true
            }
        },
    }
}

/// Applies the price or size policy to a value in units of 10^-9.
pub fn enforce_policy(
    value_e9: i128,
    step_e9: i128,
    policy: PolicyMode,
    rounding: RoundingMode,
    max_deviation_bps: i64,
    label: &str,
) -> (r: Result<i128, ExecError>)
    requires
        enforced(value_e9 as int, step_e9 as int, policy, rounding, max_deviation_bps as int, label@)
            is Some,
    ensures
        matches_outcome(
            r,
            enforced(value_e9 as int, step_e9 as int, policy, rounding, max_deviation_bps as int, label@)->0,
        ),
{
    try_enforce_policy(value_e9, step_e9, policy, rounding, max_deviation_bps, label).unwrap()
}

/// The limit price an intent asks for, before snapping: `None` where computing
/// it panics, otherwise the price (absent for market prices) or the message of
/// the validation error.
pub open spec fn intent_price(intent: Intent, last_price: Option<Decimal>) -> Option<
    Result<Option<(int, int)>, Seq<char>>,
> {
    match intent.price_spec {
        IntentPriceSpec::Market => Some(Ok(None)),
        IntentPriceSpec::Absolute(p) => Some(Ok(Some(p.parts()))),
        IntentPriceSpec::OffsetBps(bps) => match intent.order_type {
            OrderType::Market => Some(Ok(None)),
            OrderType::Limit => match last_price {
                None => Some(Err("Missing last_price for offset_bps intent; check raw capture"@)),
                Some(last) => match rd_checked_div(bps as int, 0, 10000, 0) {
                    None => None,
                    Some(f1) => match rd_checked_add(1, 0, f1.0, f1.1) {
                        None => None,
                        Some(f) => match rd_checked_mul(last.mant(), last.exp() as int, f.0, f.1) {
                            None => None,
                            Some(p) => Some(Ok(Some(p))),
                        },
                    },
                },
            },
        },
    }
}

/// The price after the price policy: `None` where a step panics.
pub open spec fn price_stage(
    price: Option<(int, int)>,
    meta: MarketMeta,
    policy: NormalizationPolicy,
) -> Option<Result<Option<(int, int)>, Seq<char>>> {
    match price {
        None => Some(Ok(None)),
        Some(p) => match to_e9(p) {
            None => None,
            Some(pe) => match enforced(
                pe,
                meta.tick_size_e9 as int,
                policy.price_policy,
                policy.price_rounding,
                policy.max_deviation_bps as int,
                "price"@,
            ) {
                None => None,
                Some(Err(m)) => Some(Err(m)),
                Some(Ok(sp)) => if sp <= 0 {
                    Some(Err("Price snaps to 0"@))
                } else {
                    match e9_parts(sp) {
                        None => None,
                        Some(d) => Some(Ok(Some(d))),
                    }
                },
            },
        },
    }
}

/// The size after the size policy and the minimum-quantity check: `None` where
/// a step panics.
pub open spec fn size_stage(size: (int, int), meta: MarketMeta, policy: NormalizationPolicy) -> Option<
    Result<(int, int), Seq<char>>,
> {
    match to_e9(size) {
        None => None,
        Some(se) => match enforced(
            se,
            meta.step_size_e9 as int,
            policy.size_policy,
            policy.size_rounding,
            policy.max_deviation_bps as int,
            "size"@,
        ) {
            None => None,
            Some(Err(m)) => Some(Err(m)),
            Some(Ok(ss)) => {
                let clamped = if ss < 0 {
                    0
                } else {
                    ss
                };
                match e9_parts(clamped) {
                    None => None,
                    Some(d) => if clamped < meta.min_order_quantity_e9 {
                        Some(Err("Order size below minimum"@))
                    } else {
                        Some(Ok(d))
                    },
                }
            },
        }
    }
}

/// The size an intent asks for.
pub open spec fn intent_size(intent: Intent) -> (int, int) {
    match intent.size_spec {
        IntentSizeSpec::Quantity(q) => q.parts(),
    }
}

/// What `normalize_intent` computes: `None` where it panics; otherwise the
/// snapped price and size, or the message of the validation error.
pub open spec fn normalized(
    intent: Intent,
    snapshot: MarketSnapshot,
    policy: NormalizationPolicy,
    last_price: Option<Decimal>,
) -> Option<Result<(Option<(int, int)>, (int, int)), Seq<char>>> {
    match first_index_of_market(snapshot.markets@, intent.market@) {
        None => Some(Err("Unknown market in snapshot: "@ + intent.market@)),
        Some(i) => {
            let meta = snapshot.markets@[i];
            match intent_price(intent, last_price) {
                None => None,
                Some(Err(m)) => Some(Err(m)),
                Some(Ok(price)) => match price_stage(price, meta, policy) {
                    None => None,
                    Some(Err(m)) => Some(Err(m)),
                    Some(Ok(p)) => match size_stage(intent_size(intent), meta, policy) {
                        None => None,
                        Some(Err(m)) => Some(Err(m)),
                        Some(Ok(sz)) => Some(Ok((p, sz))),
                    },
                },
            }
        },
    }
}

/// `r` is the order request for `intent` with price `price` and size `size`.
pub open spec fn request_for_intent(
    r: OrderRequest,
    intent: Intent,
    price: Option<(int, int)>,
    size: (int, int),
) -> bool {
    &&& r.market@ == intent.market@
    &&& r.side == intent.side
    &&& r.order_type == intent.order_type
    &&& match price {
        None => r.price is None,
        Some(p) => r.price is Some && r.price->0.has_parts(p),
    }
    &&& r.size.has_parts(size)
    &&& r.time_in_force == intent.time_in_force
    &&& r.reduce_only == intent.reduce_only
    &&& r.post_only == intent.post_only
    &&& r.client_order_id is Some
    &&& r.client_order_id->0@ == intent.strategy_id@ + ":"@ + intent.intent_id@
}

/// `r` is what `outcome` describes.
pub open spec fn matches_normalized(
    r: Result<OrderRequest, ExecError>,
    intent: Intent,
    outcome: Result<(Option<(int, int)>, (int, int)), Seq<char>>,
) -> bool {
    match outcome {
        Ok((p, sz)) => r is Ok && request_for_intent(r->Ok_0, intent, p, sz),
        Err(m) => r is Err && is_validation_error(r->Err_0, m),
    }
}

/// `d` stands for a whole number of 10^-9 units that is positive and a
/// multiple of `tick` (for a positive tick).
pub open spec fn price_on_grid(d: Decimal, tick: int) -> bool {
    exists|n: int|
        n > 0 && (tick > 0 ==> n % tick == 0) && #[trigger] value_eq(d.mant(), d.exp(), n, 9)
}

/// `d` stands for a whole number of 10^-9 units that is not negative, at
/// least `min` and a multiple of `step` (for a positive step).
pub open spec fn size_on_grid(d: Decimal, step: int, min: int) -> bool {
    exists|n: int|
        n >= 0 && n >= min && (step > 0 ==> n % step == 0) && #[trigger] value_eq(
            d.mant(),
            d.exp(),
            n,
            9,
        )
}

/// The request lies on the grid of market `meta`: its price, if any, on the
/// tick, and its size on the step and at least the minimum quantity, as
/// decimal values.
pub open spec fn request_on_grid(r: OrderRequest, meta: MarketMeta) -> bool {
    &&& r.price matches Some(p) ==> price_on_grid(p, meta.tick_size_e9 as int)
    &&& size_on_grid(r.size, meta.step_size_e9 as int, meta.min_order_quantity_e9 as int)
}

/// The market data of `intent`'s market in `snapshot`.
pub open spec fn intent_meta(intent: Intent, snapshot: MarketSnapshot) -> MarketMeta {
    snapshot.markets@[first_index_of_market(snapshot.markets@, intent.market@)->0]
}

/// An offset limit price is the last price times `1 + bps/10000` as a value:
/// `last * (10000 + bps) / 10000`, wherever that value fits in 96 bits at
/// the last price's scale plus 4.
pub open spec fn offset_price_exact(intent: Intent, last_price: Option<Decimal>, r: Option<
    Result<Option<Decimal>, ExecError>,
>) -> bool {
    match (intent.price_spec, intent.order_type, last_price) {
        (IntentPriceSpec::OffsetBps(bps), OrderType::Limit, Some(l)) => representable(
            l.mant() * (10000 + bps),
            (l.exp() + 4) as int,
        ) ==> (r matches Some(Ok(Some(p))) && value_eq(
            p.mant(),
            p.exp(),
            l.mant() * (10000 + bps),
            l.exp() + 4,
        )),
        _ => true,
    }
}

/// `10^a <= 10^b` for `a <= b`.
proof fn lemma_pow10_le(a: nat, b: nat)
    requires
        a <= b,
    ensures
        pow10(a) <= pow10(b),
    decreases b,
{
    lemma_pow10_positive(a);
    if a < b {
        lemma_pow10_le(a, (b - 1) as nat);
    }
}

/// A product of `lm / 10^ls` and `fm / 10^fs`, where `fm / 10^fs` is
/// `b / 10^4`, keeps its value when rescaled: the digits dropped from
/// `lm * fm` are zeros, and any decimal equal to the product is equal to
/// `lm * b / 10^(ls + 4)`.
proof fn lemma_offset_product(lm: int, ls: nat, fm: int, fs: nat, b: int) -> (j: nat)
    requires
        lm != 0,
        fm * pow10(4) == b * pow10(fs),
        representable(lm * b, (ls + 4) as int),
    ensures
        j <= ls + fs,
        (lm * fm) % pow10(j) == 0,
        representable((lm * fm) / pow10(j), ls + fs - j),
        forall|pm: int, ps: nat|
            value_eq(pm, ps, lm * fm, ls + fs) ==> #[trigger] value_eq(pm, ps, lm * b, ls + 4),
{
    let p4 = pow10(4);
    assert(p4 == 10000) by {
        reveal_with_fuel(pow10, 5);
    }
    lemma_pow10_positive(fs);
    lemma_pow10_positive(ls);
    lemma_pow10_add(ls, fs);
    lemma_pow10_add(ls, 4);
    let f = pow10(fs);
    let lp = pow10(ls);
    assert forall|pm: int, ps: nat| value_eq(pm, ps, lm * fm, ls + fs) implies #[trigger] value_eq(
        pm,
        ps,
        lm * b,
        ls + 4,
    ) by {
        let q = pow10(ps);
        assert(pm * (lp * p4) == lm * b * q) by (nonlinear_arith)
            requires
                pm * (lp * f) == lm * fm * q,
                fm * p4 == b * f,
                f >= 1,
        ;
    }
    if fs >= 4 {
        let j = (fs - 4) as nat;
        lemma_pow10_add(j, 4);
        lemma_pow10_positive(j);
        let pj = pow10(j);
        assert(fm == b * pj) by (nonlinear_arith)
            requires
                fm * p4 == b * (pj * p4),
                p4 == 10000,
        ;
        assert(lm * fm == (lm * b) * pj) by (nonlinear_arith)
            requires
                fm == b * pj,
        ;
        vstd::arithmetic::div_mod::lemma_mod_multiples_basic(lm * b, pj);
        vstd::arithmetic::div_mod::lemma_div_multiples_vanish(lm * b, pj);
        assert((lm * b) * pj == pj * (lm * b)) by (nonlinear_arith);
        j
    } else {
        let d = (4 - fs) as nat;
        lemma_pow10_add(fs, d);
        lemma_pow10_positive(d);
        let pd = pow10(d);
        assert(b == fm * pd) by (nonlinear_arith)
            requires
                fm * (f * pd) == b * f,
                f >= 1,
        ;
        assert(pow10(0) == 1);
        assert(-MAX_MANTISSA <= lm * fm <= MAX_MANTISSA) by (nonlinear_arith)
            requires
                -MAX_MANTISSA <= lm * b <= MAX_MANTISSA,
                b == fm * pd,
                pd >= 1,
        ;
        0
    }
}

/// The limit price an intent asks for, before snapping (as `intent_price`
/// names it); an offset price is the last price times `1 + bps/10000`.
pub fn checked_intent_price(intent: &Intent, last_price: Option<Decimal>) -> (r: Option<
    Result<Option<Decimal>, ExecError>,
>)
    ensures
        match intent_price(*intent, last_price) {
            None => r is None,
            Some(Ok(None)) => r == Some(Ok::<Option<Decimal>, ExecError>(None)),
            Some(Ok(Some(p))) => r is Some && r->0 is Ok && r->0->Ok_0 is Some
                && r->0->Ok_0->0.has_parts(p),
            Some(Err(m)) => r is Some && r->0 is Err && is_validation_error(r->0->Err_0, m),
        },
        offset_price_exact(*intent, last_price, r),
{
    match (&intent.price_spec, intent.order_type) {
        (IntentPriceSpec::Market, _) => Some(Ok(None)),
        (IntentPriceSpec::Absolute(p), _) => Some(Ok(Some(*p))),
        (IntentPriceSpec::OffsetBps(bps), OrderType::Limit) => {
            let last = match last_price {
                Some(l) => l,
                None => {
                    return Some(
                        Err(
                            validation(
                                owned("Missing last_price for offset_bps intent; check raw capture"),
                            ),
                        ),
                    );
                },
            };
            let b = *bps;
            proof {
                assert(pow10(4) == 10000 && pow10(5) == 100000 && pow10(9) == 1_000_000_000) by {
                    reveal_with_fuel(pow10, 10);
                }
                assert(-MAX_MANTISSA <= b * 100_000 <= MAX_MANTISSA) by (nonlinear_arith)
                    requires
                        i64::MIN <= b <= i64::MAX,
                ;
            }
            let f1 = match Decimal::from_i64(*bps).checked_div(&Decimal::from_i64(10_000)) {
                Some(d) => d,
                None => return None,
            };
            let one = Decimal::one();
            proof {
                let t = f1.exp();
                let f1m = f1.mant();
                lemma_pow10_le(t, 9);
                lemma_pow10_positive(t);
                assert(max_scale(0, t) == t);
                assert(pow10(0) == 1);
                assert(aligned_sum(1, 0, f1m, t) == pow10(t) + f1m);
                assert(-MAX_MANTISSA <= pow10(t) + f1m <= MAX_MANTISSA) by (nonlinear_arith)
                    requires
                        f1m * 10000 == b * pow10(t),
                        1 <= pow10(t) <= 1_000_000_000,
                        i64::MIN <= b <= i64::MAX,
                ;
            }
            let factor = match one.checked_add(&f1) {
                Some(d) => d,
                None => return None,
            };
            let ghost fact_b: int = 10000 + b;
            proof {
                let t = f1.exp();
                let pt = pow10(t);
                let q = pow10(factor.exp());
                lemma_pow10_positive(t);
                assert(factor.mant() * pow10(4) == fact_b * q) by (nonlinear_arith)
                    requires
                        factor.mant() * pt == (pt + f1.mant()) * q,
                        f1.mant() * 10000 == b * pt,
                        pt >= 1,
                        pow10(4) == 10000,
                        fact_b == 10000 + b,
                ;
            }
            let p = match last.checked_mul(&factor) {
                Some(p) => p,
                None => {
                    proof {
                        if representable(last.mant() * fact_b, (last.exp() + 4) as int) && last.mant() != 0
                            && factor.mant() != 0 {
                            let j = lemma_offset_product(
                                last.mant(),
                                last.exp(),
                                factor.mant(),
                                factor.exp(),
                                fact_b,
                            );
                            assert(pow10(j) == pow10(j));
                        }
                    }
                    return None;
                },
            };
            proof {
                if representable(last.mant() * fact_b, (last.exp() + 4) as int) {
                    if last.mant() == 0 {
                        assert(last.mant() * fact_b == 0);
                    } else if factor.mant() == 0 {
                        lemma_pow10_positive(factor.exp());
                        assert(fact_b == 0) by (nonlinear_arith)
                            requires
                                factor.mant() * 10000 == fact_b * pow10(factor.exp()),
                                factor.mant() == 0,
                                pow10(factor.exp()) >= 1,
                        ;
                        assert(last.mant() * fact_b == 0);
                    } else {
                        let j = lemma_offset_product(
                            last.mant(),
                            last.exp(),
                            factor.mant(),
                            factor.exp(),
                            fact_b,
                        );
                        assert(pow10(j) == pow10(j));
                        assert(value_eq(p.mant(), p.exp(), last.mant() * factor.mant(), last.exp() + factor.exp()));
                    }
                }
            }
            Some(Ok(Some(p)))
        },
        (IntentPriceSpec::OffsetBps(_), OrderType::Market) => Some(Ok(None)),
    }
}

fn checked_price_stage(price: Option<Decimal>, meta: &MarketMeta, policy: &NormalizationPolicy) -> (r:
    Option<Result<Option<Decimal>, ExecError>>)
    ensures
        match price_stage(
            match price {
                Some(p) => Some(p.parts()),
                None => None,
            },
            *meta,
            *policy,
        ) {
            None => r is None,
            Some(Ok(None)) => r == Some(Ok::<Option<Decimal>, ExecError>(None)),
            Some(Ok(Some(p))) => r is Some && r->0 is Ok && r->0->Ok_0 is Some
                && r->0->Ok_0->0.has_parts(p),
            Some(Err(m)) => r is Some && r->0 is Err && is_validation_error(r->0->Err_0, m),
        },
        r matches Some(Ok(Some(d))) ==> price_on_grid(d, meta.tick_size_e9 as int),
{
    match price {
        None => Some(Ok(None)),
        Some(p) => {
            let price_e9 = match try_decimal_to_e9(p) {
                Some(v) => v,
                None => return None,
            };
            let snapped_price = match try_enforce_policy(
                price_e9,
                meta.tick_size_e9 as i128,
                policy.price_policy,
                policy.price_rounding,
                policy.max_deviation_bps,
                "price",
            ) {
                None => return None,
                Some(Err(e)) => return Some(Err(e)),
                Some(Ok(v)) => v,
            };
            if snapped_price <= 0 {
                return Some(Err(validation(owned("Price snaps to 0"))));
            }
            proof {
                let tick = meta.tick_size_e9 as int;
                if tick > 0 {
                    lemma_enforced_is_aligned(
                        price_e9 as int,
                        tick,
                        policy.price_policy,
                        policy.price_rounding,
                        policy.max_deviation_bps as int,
                        "price"@,
                    );
                }
            }
            match try_e9_to_decimal(snapped_price) {
                Some(d) => {
                    assert(value_eq(d.mant(), d.exp(), snapped_price as int, 9));
                    Some(Ok(Some(d)))
                },
                None => None,
            }
        },
    }
}

fn checked_size_stage(size: Decimal, meta: &MarketMeta, policy: &NormalizationPolicy) -> (r: Option<
    Result<Decimal, ExecError>,
>)
    ensures
        match size_stage(size.parts(), *meta, *policy) {
            None => r is None,
            Some(Ok(p)) => r is Some && r->0 is Ok && r->0->Ok_0.has_parts(p),
            Some(Err(m)) => r is Some && r->0 is Err && is_validation_error(r->0->Err_0, m),
        },
        r matches Some(Ok(d)) ==> size_on_grid(
            d,
            meta.step_size_e9 as int,
            meta.min_order_quantity_e9 as int,
        ),
{
    let size_e9 = match try_decimal_to_e9(size) {
        Some(v) => v,
        None => return None,
    };
    let snapped_size = match try_enforce_policy(
        size_e9,
        meta.step_size_e9 as i128,
        policy.size_policy,
        policy.size_rounding,
        policy.max_deviation_bps,
        "size",
    ) {
        None => return None,
        Some(Err(e)) => return Some(Err(e)),
        Some(Ok(v)) => v,
    };
    proof {
        let step = meta.step_size_e9 as int;
        if step > 0 {
            lemma_enforced_is_aligned(
                size_e9 as int,
                step,
                policy.size_policy,
                policy.size_rounding,
                policy.max_deviation_bps as int,
                "size"@,
            );
            vstd::arithmetic::div_mod::lemma_small_mod(0, step as nat);
        }
    }
    let snapped_size = if snapped_size < 0 {
        0
    } else {
        snapped_size
    };
    let new_size = match try_e9_to_decimal(snapped_size) {
        Some(d) => d,
        None => return None,
    };
    if snapped_size < meta.min_order_quantity_e9 as i128 {
        return Some(Err(validation(owned("Order size below minimum"))));
    }
    assert(value_eq(new_size.mant(), new_size.exp(), snapped_size as int, 9));
    Some(Ok(new_size))
}

fn checked_normalize_intent(
    intent: &Intent,
    snapshot: &MarketSnapshot,
    policy: &NormalizationPolicy,
    last_price: Option<Decimal>,
) -> (r: Option<Result<OrderRequest, ExecError>>)
    ensures
        match normalized(*intent, *snapshot, *policy, last_price) {
            None => r is None,
            Some(o) => r is Some && matches_normalized(r->0, *intent, o),
        },
        r matches Some(Ok(req)) ==> request_on_grid(req, intent_meta(*intent, *snapshot)),
{
    let meta = match snapshot.get(intent.market.as_str()) {
        Some(m) => m,
        None => {
            return Some(
                Err(validation(join2("Unknown market in snapshot: ", intent.market.as_str()))),
            );
        },
    };
    let price = match checked_intent_price(intent, last_price) {
        None => return None,
        Some(Err(e)) => return Some(Err(e)),
        Some(Ok(p)) => p,
    };
    let size = match intent.size_spec {
        IntentSizeSpec::Quantity(q) => q,
    };
    let price = match checked_price_stage(price, meta, policy) {
        None => return None,
        Some(Err(e)) => return Some(Err(e)),
        Some(Ok(p)) => p,
    };
    let size = match checked_size_stage(size, meta, policy) {
        None => return None,
        Some(Err(e)) => return Some(Err(e)),
        Some(Ok(s)) => s,
    };
    let client_order_id = join3(intent.strategy_id.as_str(), ":", intent.intent_id.as_str());
    Some(
        Ok(
            OrderRequest {
                market: intent.market.clone(),
                side: intent.side,
                order_type: intent.order_type,
                price,
                size,
                time_in_force: intent.time_in_force,
                reduce_only: intent.reduce_only,
                post_only: intent.post_only,
                client_order_id: Some(client_order_id),
            },
        ),
    )
}

/// A normalized intent lies on its market's grid: its price (if any) stands
/// for a positive multiple of the tick, and its size for a multiple of the
/// step that is at least the minimum quantity, both in units of 10^-9 (for a
/// positive tick and step).
pub proof fn lemma_normalized_on_grid(
    intent: Intent,
    snapshot: MarketSnapshot,
    policy: NormalizationPolicy,
    last_price: Option<Decimal>,
)
    requires
        normalized(intent, snapshot, policy, last_price) matches Some(Ok(_)),
    ensures
        ({
            let (price, size) = normalized(intent, snapshot, policy, last_price)->0->Ok_0;
            let meta = snapshot.markets@[first_index_of_market(snapshot.markets@, intent.market@)->0];
            &&& price matches Some(p) ==> exists|sp: int|
                sp > 0 && (meta.tick_size_e9 > 0 ==> sp % (meta.tick_size_e9 as int) == 0)
                    && #[trigger] e9_parts(sp) == Some(p)
            &&& exists|ss: int|
                ss >= meta.min_order_quantity_e9 && (meta.step_size_e9 > 0 ==> ss % (
                meta.step_size_e9 as int) == 0) && #[trigger] e9_parts(ss) == Some(size)
        }),
{
    let meta = snapshot.markets@[first_index_of_market(snapshot.markets@, intent.market@)->0];
    let price = intent_price(intent, last_price)->0->Ok_0;
    if let Some(p) = price {
        let pe = to_e9(p)->0;
        let tick = meta.tick_size_e9 as int;
        let sp = enforced(pe, tick, policy.price_policy, policy.price_rounding, policy.max_deviation_bps as int, "price"@)->0->Ok_0;
        if tick > 0 {
            lemma_enforced_is_aligned(pe, tick, policy.price_policy, policy.price_rounding, policy.max_deviation_bps as int, "price"@);
        }
        assert(e9_parts(sp) == Some(price_stage(price, meta, policy)->0->Ok_0->0));
    }
    let se = to_e9(intent_size(intent))->0;
    let step = meta.step_size_e9 as int;
    let ss = enforced(se, step, policy.size_policy, policy.size_rounding, policy.max_deviation_bps as int, "size"@)->0->Ok_0;
    if step > 0 {
        lemma_enforced_is_aligned(se, step, policy.size_policy, policy.size_rounding, policy.max_deviation_bps as int, "size"@);
    }
    let clamped = if ss < 0 { 0 } else { ss };
    assert(e9_parts(clamped) == Some(size_stage(intent_size(intent), meta, policy)->0->Ok_0));
}

/// Turns a strategy intent into an order request for the intent's market:
/// computes the price (absolute, offset from `last_price`, or none), moves
/// price and size onto the market's tick and step under `policy`, and checks
/// the minimum quantity.  The client order id is `strategy_id:intent_id`.
pub fn normalize_intent(
    intent: &Intent,
    snapshot: &MarketSnapshot,
    policy: &NormalizationPolicy,
    last_price: Option<Decimal>,
) -> (r: Result<OrderRequest, ExecError>)
    requires
        normalized(*intent, *snapshot, *policy, last_price) is Some,
    ensures
        matches_normalized(r, *intent, normalized(*intent, *snapshot, *policy, last_price)->0),
        r matches Ok(req) ==> request_on_grid(req, intent_meta(*intent, *snapshot)),
{
    checked_normalize_intent(intent, snapshot, policy, last_price).unwrap()
}

/// `normalize_intent`, or `None` on the inputs where its decimal arithmetic
/// overflows.
pub fn try_normalize_intent(
    intent: &Intent,
    snapshot: &MarketSnapshot,
    policy: &NormalizationPolicy,
    last_price: Option<Decimal>,
) -> (r: Option<Result<OrderRequest, ExecError>>)
    ensures
        r is None <==> normalized(*intent, *snapshot, *policy, last_price) is None,
        r is Some ==> matches_normalized(r->0, *intent, normalized(*intent, *snapshot, *policy, last_price)->0),
        r matches Some(Ok(req)) ==> request_on_grid(req, intent_meta(*intent, *snapshot)),
{
    match checked_normalize_intent(intent, snapshot, policy, last_price) {
        Some(res) => Some(res),
        None => None,
    }
}

} // verus!
