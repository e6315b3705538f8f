//! Fixed-point decimal numbers.
//!
//! A `Decimal` is the number `mantissa / 10^scale` with a mantissa of at most
//! 96 bits and a scale of at most 28, the representation used by the
//! `rust_decimal` crate.  Arithmetic is carried out by `rust_decimal`; the
//! library only converts values to and from it.
use crate::text::{digit_char, digits_text};
use vstd::prelude::*;

verus! {

/// Largest magnitude of a mantissa: 2^96 - 1.
pub const MAX_MANTISSA: i128 = 79228162514264337593543950335i128;

/// Largest scale (number of fractional digits).
pub const MAX_SCALE: u32 = 28u32;

/// 10^n.
pub open spec fn pow10(n: nat) -> int
    decreases n,
{
    if n == 0 {
        1
    } else {
        10 * pow10((n - 1) as nat)
    }
}

pub proof fn lemma_pow10_positive(n: nat)
    ensures
        pow10(n) >= 1,
    decreases n,
{
    if n > 0 {
        lemma_pow10_positive((n - 1) as nat);
    }
}

/// `value_le` is transitive.
pub proof fn lemma_value_le_transitive(am: int, asc: nat, bm: int, bsc: nat, cm: int, csc: nat)
    requires
        value_le(am, asc, bm, bsc),
        value_le(bm, bsc, cm, csc),
    ensures
        value_le(am, asc, cm, csc),
{
    let pa = pow10(asc);
    let pb = pow10(bsc);
    let pc = pow10(csc);
    lemma_pow10_positive(asc);
    lemma_pow10_positive(bsc);
    lemma_pow10_positive(csc);
    assert(am * pc <= cm * pa) by (nonlinear_arith)
        requires
            am * pb <= bm * pa,
            bm * pc <= cm * pb,
            pa >= 1,
            pb >= 1,
            pc >= 1,
    {
        assert(am * pb * pc <= bm * pa * pc);
        assert(bm * pc * pa <= cm * pb * pa);
        assert(am * pc * pb <= cm * pa * pb);
    }
}

/// Whether `(m, s)` is a representable mantissa/scale pair.
pub open spec fn representable(m: int, s: int) -> bool {
    -MAX_MANTISSA <= m <= MAX_MANTISSA && 0 <= s <= MAX_SCALE
}

/// `m / 10^s` compared with `n / 10^t`: the sign of `m * 10^t - n * 10^s`.
pub open spec fn value_le(m: int, s: nat, n: int, t: nat) -> bool {
    m * pow10(t) <= n * pow10(s)
}

pub open spec fn value_eq(m: int, s: nat, n: int, t: nat) -> bool {
    m * pow10(t) == n * pow10(s)
}

/// The larger of two scales: the scale at which two decimals are added.
pub open spec fn max_scale(asc: nat, bsc: nat) -> nat {
    if asc >= bsc {
        asc
    } else {
        bsc
    }
}

/// `am / 10^asc + bm / 10^bsc` as a mantissa at scale `max_scale(asc, bsc)`.
pub open spec fn aligned_sum(am: int, asc: nat, bm: int, bsc: nat) -> int {
    let m = max_scale(asc, bsc);
    am * pow10((m - asc) as nat) + bm * pow10((m - bsc) as nat)
}

/// `am / 10^asc - bm / 10^bsc` as a mantissa at scale `max_scale(asc, bsc)`.
pub open spec fn aligned_difference(am: int, asc: nat, bm: int, bsc: nat) -> int {
    let m = max_scale(asc, bsc);
    am * pow10((m - asc) as nat) - bm * pow10((m - bsc) as nat)
}

/// `10^(a + b) == 10^a * 10^b`.
pub proof fn lemma_pow10_add(a: nat, b: nat)
    ensures
        pow10(a + b) == pow10(a) * pow10(b),
    decreases a,
{
    if a > 0 {
        lemma_pow10_add((a - 1) as nat, b);
        assert(pow10(a + b) == 10 * pow10((a - 1 + b) as nat));
        assert(10 * (pow10((a - 1) as nat) * pow10(b)) == (10 * pow10((a - 1) as nat)) * pow10(b))
            by (nonlinear_arith);
    }
}

/// Integer quotient of `n / d` rounded half to even, for `n >= 0`, `d > 0`.
pub open spec fn div_half_even(n: int, d: int) -> int {
    let q = n / d;
    let r = n % d;
    if 2 * r > d {
        q + 1
    } else if 2 * r == d && q % 2 == 1 {
        q + 1
    } else {
        q
    }
}

/// `m / 10^s` rounded to an integer, halfway cases to the even neighbour.
pub open spec fn round_half_even(m: int, s: nat) -> int {
    if m >= 0 {
        div_half_even(m, pow10(s))
    } else {
        -div_half_even(-m, pow10(s))
    }
}

/// `m / 10^s` truncated toward zero.
pub open spec fn truncate_toward_zero(m: int, s: nat) -> int {
    if m >= 0 {
        m / pow10(s)
    } else {
        -((-m) / pow10(s))
    }
}

/// Result of `rust_decimal::Decimal::checked_add` on `(am, asc)` and `(bm, bsc)`,
/// as a mantissa/scale pair.
pub uninterp spec fn rd_checked_add(am: int, asc: int, bm: int, bsc: int) -> Option<(int, int)>;

/// Result of `rust_decimal::Decimal::checked_sub`.
pub uninterp spec fn rd_checked_sub(am: int, asc: int, bm: int, bsc: int) -> Option<(int, int)>;

/// Result of `rust_decimal::Decimal::checked_mul`.
pub uninterp spec fn rd_checked_mul(am: int, asc: int, bm: int, bsc: int) -> Option<(int, int)>;

/// Result of `rust_decimal::Decimal::checked_div`.
pub uninterp spec fn rd_checked_div(am: int, asc: int, bm: int, bsc: int) -> Option<(int, int)>;

/// Result of `<rust_decimal::Decimal as FromStr>::from_str` on the characters of a string.
pub uninterp spec fn rd_from_str(s: Seq<char>) -> Option<(int, int)>;

/// Result of `rust_decimal::Decimal::from_str_exact`: the mantissa/scale
/// pair, or the text of its error.
pub uninterp spec fn rd_from_str_exact(s: Seq<char>) -> Result<(int, int), Seq<char>>;

/// The last `width` decimal digits of `n`, zero-padded on the left.
pub open spec fn padded_digits(n: nat, width: nat) -> Seq<char>
    decreases width,
{
    if width == 0 {
        seq![]
    } else {
        padded_digits(n / 10, (width - 1) as nat) + seq![digit_char((n % 10) as int)]
    }
}

/// The text of `m / 10^s` in plain notation: a `-` where the sign flag
/// `negative` is set (a zero may carry it), the integer digits, and for
/// `s > 0` a point followed by exactly `s` fractional digits (trailing zeros
/// kept).
pub open spec fn decimal_text(m: int, s: nat, negative: bool) -> Seq<char> {
    let a: nat = if m < 0 { (-m) as nat } else { m as nat };
    let sign: Seq<char> = if negative { seq!['-'] } else { seq![] };
    if s == 0 {
        sign + digits_text(a)
    } else {
        sign + digits_text(a / (pow10(s) as nat)) + seq!['.'] + padded_digits(a % (pow10(s) as nat), s)
    }
}

/// A decimal number `mantissa / 10^scale`, with the sign flag of
/// `rust_decimal`: set for a negative mantissa, clear for a positive one, and
/// either way for zero (`-0` is a zero with the flag set).
#[derive(Clone, Copy, Debug)]
pub struct Decimal {
    m: i128,
    s: u32,
    neg: bool,
}

impl Decimal {
    #[verifier::type_invariant]
    spec fn inv(self) -> bool {
        &&& representable(self.m as int, self.s as int)
        &&& self.m < 0 ==> self.neg
        &&& self.m > 0 ==> !self.neg
    }

    /// The sign flag (always that of a nonzero mantissa).
    pub closed spec fn is_neg(self) -> bool {
        if self.m < 0 {
            true
        } else if self.m > 0 {
            false
        } else {
            self.neg
        }
    }

    /// The sign flag agrees with a nonzero mantissa.
    pub proof fn lemma_sign(self)
        ensures
            self.mant() < 0 ==> self.is_neg(),
            self.mant() > 0 ==> !self.is_neg(),
    {
    }

    /// The mantissa.
    pub closed spec fn mant(self) -> int {
        self.m as int
    }

    /// The scale (number of fractional digits), at most 28 by the invariant.
    pub closed spec fn exp(self) -> nat {
        if self.s <= MAX_SCALE {
            self.s as nat
        } else {
            MAX_SCALE as nat
        }
    }

    /// A scale never exceeds 28.
    pub proof fn lemma_scale_bound(self)
        ensures
            self.exp() <= MAX_SCALE,
    {
    }

    /// The numeric value is at most that of `other`.
    pub open spec fn spec_le(self, other: Decimal) -> bool {
        value_le(self.mant(), self.exp(), other.mant(), other.exp())
    }

    /// The numeric value equals that of `other`.
    pub open spec fn spec_eq(self, other: Decimal) -> bool {
        value_eq(self.mant(), self.exp(), other.mant(), other.exp())
    }

    /// The pair `(mantissa, scale)`.
    pub open spec fn parts(self) -> (int, int) {
        (self.mant(), self.exp() as int)
    }

    /// The decimal with the given mantissa/scale pair.
    pub open spec fn has_parts(self, p: (int, int)) -> bool {
        self.mant() == p.0 && self.exp() == p.1
    }

    pub fn mantissa(&self) -> (m: i128)
        ensures
            m == self.mant(),
            -MAX_MANTISSA <= m <= MAX_MANTISSA,
    {
        proof {
            use_type_invariant(self);
        }
        self.m
    }

    pub fn scale(&self) -> (s: u32)
        ensures
            s == self.exp(),
            s <= MAX_SCALE,
    {
        proof {
            use_type_invariant(self);
        }
        self.s
    }

    /// `mantissa / 10^scale`.
    pub fn from_parts(mantissa: i128, scale: u32) -> (d: Decimal)
        requires
            representable(mantissa as int, scale as int),
        ensures
            d.mant() == mantissa,
            d.exp() == scale,
            d.is_neg() == (mantissa < 0),
    {
        Decimal { m: mantissa, s: scale, neg: mantissa < 0 }
    }

    /// `mantissa / 10^scale` with the sign flag `negative`, which must agree
    /// with a nonzero mantissa.
    pub fn from_signed_parts(mantissa: i128, scale: u32, negative: bool) -> (d: Decimal)
        requires
            representable(mantissa as int, scale as int),
            mantissa < 0 ==> negative,
            mantissa > 0 ==> !negative,
        ensures
            d.mant() == mantissa,
            d.exp() == scale,
            d.is_neg() == negative,
    {
        Decimal { m: mantissa, s: scale, neg: negative }
    }

    /// The sign flag: `is_sign_negative`.
    pub fn is_sign_negative(&self) -> (b: bool)
        ensures
            b == self.is_neg(),
    {
        proof {
            use_type_invariant(self);
        }
        self.neg
    }

    /// `num / 10^scale`, as `rust_decimal::Decimal::new` builds it.
    pub fn new(num: i64, scale: u32) -> (d: Decimal)
        requires
            scale <= MAX_SCALE,
        ensures
            d.mant() == num,
            d.exp() == scale,
            d.is_neg() == (num < 0),
    {
        Decimal { m: num as i128, s: scale, neg: num < 0 }
    }

    pub fn zero() -> (d: Decimal)
        ensures
            d.mant() == 0,
            d.exp() == 0,
            !d.is_neg(),
    {
        Decimal { m: 0, s: 0, neg: false }
    }

    pub fn one() -> (d: Decimal)
        ensures
            d.mant() == 1,
            d.exp() == 0,
    {
        Decimal { m: 1, s: 0, neg: false }
    }

    /// `Decimal::from(i64)`.
    pub fn from_i64(n: i64) -> (d: Decimal)
        ensures
            d.mant() == n,
            d.exp() == 0,
    {
        Decimal { m: n as i128, s: 0, neg: n < 0 }
    }

    /// `Decimal::from(u64)`.
    pub fn from_u64(n: u64) -> (d: Decimal)
        ensures
            d.mant() == n,
            d.exp() == 0,
    {
        Decimal { m: n as i128, s: 0, neg: n < 0 }
    }

    /// `Decimal::from(i128)`, which panics beyond 96 bits.
    pub fn from_i128(n: i128) -> (d: Decimal)
        requires
            -MAX_MANTISSA <= n <= MAX_MANTISSA,
        ensures
            d.mant() == n,
            d.exp() == 0,
    {
        Decimal { m: n, s: 0, neg: n < 0 }
    }

    /// `Decimal::from(i128)` where it does not panic.
    pub fn try_from_i128(n: i128) -> (d: Option<Decimal>)
        ensures
            d is Some <==> -MAX_MANTISSA <= n <= MAX_MANTISSA,
            d is Some ==> d->0.mant() == n && d->0.exp() == 0,
    {
        if -MAX_MANTISSA <= n && n <= MAX_MANTISSA {
            Some(Decimal::from_i128(n))
        } else {
            None
        }
    }

    pub fn is_zero(&self) -> (b: bool)
        ensures
            b == (self.mant() == 0),
    {
        self.m == 0
    }

    /// The absolute value.
    pub fn abs(&self) -> (d: Decimal)
        ensures
            d.mant() == (if self.mant() < 0 { -self.mant() } else { self.mant() }),
            d.exp() == self.exp(),
            !d.is_neg(),
    {
        proof {
            use_type_invariant(self);
        }
        if self.m < 0 {
            Decimal { m: -self.m, s: self.s, neg: false }
        } else {
            Decimal { m: self.m, s: self.s, neg: false }
        }
    }

    /// Numeric comparison `self <= other`.
    #[verifier::external_body]
    pub(crate) fn le(&self, other: &Decimal) -> (b: bool)
        ensures
            b == self.spec_le(*other),
    {
        rust_decimal::Decimal::from_i128_with_scale(self.m, self.s) <= rust_decimal::Decimal::from_i128_with_scale(other.m, other.s)
    }

    /// Numeric comparison `self < other`.
    pub fn lt(&self, other: &Decimal) -> (b: bool)
        ensures
            b == !other.spec_le(*self),
    {
        !other.le(self)
    }

    /// Numeric equality.
    pub fn num_eq(&self, other: &Decimal) -> (b: bool)
        ensures
            b == self.spec_eq(*other),
    {
        self.le(other) && other.le(self)
    }

    /// `Decimal::round`: nearest integer, halfway cases to even.
    #[verifier::external_body]
    pub(crate) fn round(&self) -> (d: Decimal)
        ensures
            d.mant() == round_half_even(self.mant(), self.exp()),
            d.exp() == 0,
            -MAX_MANTISSA <= d.mant() <= MAX_MANTISSA,
    {
        let mut a = rust_decimal::Decimal::from_i128_with_scale(self.m, self.s);
        a.set_sign_negative(self.neg);
        let r = a.round();
        Decimal { m: r.mantissa(), s: r.scale(), neg: r.is_sign_negative() }
    }

    /// `Decimal::trunc`: the integer part.
    #[verifier::external_body]
    pub(crate) fn trunc(&self) -> (d: Decimal)
        ensures
            d.mant() == truncate_toward_zero(self.mant(), self.exp()),
            d.exp() == 0,
            d.is_neg() == self.is_neg(),
    {
        let mut a = rust_decimal::Decimal::from_i128_with_scale(self.m, self.s);
        a.set_sign_negative(self.neg);
        let r = a.trunc();
        Decimal { m: r.mantissa(), s: r.scale(), neg: r.is_sign_negative() }
    }

    /// `ToPrimitive::to_i128`: the integer part, always present.
    #[verifier::external_body]
    pub(crate) fn to_i128(&self) -> (r: Option<i128>)
        ensures
            r == Some(truncate_toward_zero(self.mant(), self.exp()) as i128),
    {
        rust_decimal::prelude::ToPrimitive::to_i128(&rust_decimal::Decimal::from_i128_with_scale(self.m, self.s))
    }

    /// `ToPrimitive::to_i64`: the integer part when it fits in an `i64`.
    #[verifier::external_body]
    pub(crate) fn to_i64(&self) -> (r: Option<i64>)
        ensures
            r is Some <==> i64::MIN <= truncate_toward_zero(self.mant(), self.exp()) <= i64::MAX,
            r is Some ==> r->0 == truncate_toward_zero(self.mant(), self.exp()),
    {
        rust_decimal::prelude::ToPrimitive::to_i64(&rust_decimal::Decimal::from_i128_with_scale(self.m, self.s))
    }

    /// `checked_add`.  Where the sum, aligned to the larger scale, fits in 96
    /// bits it is exact: `add_sub_internal` aligns the operands exactly
    /// (`fast_add`, the 128-bit path, `unaligned_add` into a wider buffer)
    /// and rounds only a sum that does not fit (`reduce_scale`, `rescale`).
    #[verifier::external_body]
    pub(crate) fn checked_add(&self, other: &Decimal) -> (r: Option<Decimal>)
        ensures
            match rd_checked_add(self.mant(), self.exp() as int, other.mant(), other.exp() as int) {
                Some(p) => r is Some && r->0.has_parts(p),
                None => r is None,
            },
            representable(
                aligned_sum(self.mant(), self.exp(), other.mant(), other.exp()),
                max_scale(self.exp(), other.exp()) as int,
            ) ==> r is Some && value_eq(
                r->0.mant(),
                r->0.exp(),
                aligned_sum(self.mant(), self.exp(), other.mant(), other.exp()),
                max_scale(self.exp(), other.exp()),
            ),
    {
        let mut a = rust_decimal::Decimal::from_i128_with_scale(self.m, self.s);
        a.set_sign_negative(self.neg);
        let mut b = rust_decimal::Decimal::from_i128_with_scale(other.m, other.s);
        b.set_sign_negative(other.neg);
        match a.checked_add(b) {
            Some(r) => Some(Decimal { m: r.mantissa(), s: r.scale(), neg: r.is_sign_negative() }),
            None => None,
        }
    }

    /// `checked_sub`.  A value minus itself is zero; where the difference,
    /// aligned to the larger scale, fits in 96 bits it is exact (as for
    /// `checked_add`).
    #[verifier::external_body]
    pub(crate) fn checked_sub(&self, other: &Decimal) -> (r: Option<Decimal>)
        ensures
            match rd_checked_sub(self.mant(), self.exp() as int, other.mant(), other.exp() as int) {
                Some(p) => r is Some && r->0.has_parts(p),
                None => r is None,
            },
            (self.mant() == other.mant() && self.exp() == other.exp()) ==> r is Some && r->0.mant()
                == 0,
            representable(
                aligned_difference(self.mant(), self.exp(), other.mant(), other.exp()),
                max_scale(self.exp(), other.exp()) as int,
            ) ==> r is Some && value_eq(
                r->0.mant(),
                r->0.exp(),
                aligned_difference(self.mant(), self.exp(), other.mant(), other.exp()),
                max_scale(self.exp(), other.exp()),
            ),
    {
        let mut a = rust_decimal::Decimal::from_i128_with_scale(self.m, self.s);
        a.set_sign_negative(self.neg);
        let mut b = rust_decimal::Decimal::from_i128_with_scale(other.m, other.s);
        b.set_sign_negative(other.neg);
        match a.checked_sub(b) {
            Some(r) => Some(Decimal { m: r.mantissa(), s: r.scale(), neg: r.is_sign_negative() }),
            None => None,
        }
    }

    /// `checked_mul`.  A product with a zero operand is zero with scale 0 and
    /// no sign; a product of nonzero operands whose mantissa fits in 96 bits
    /// with a scale of at most 28 is exact; where the scales add up to at most
    /// 28 no digit is rounded away to zero, so a product of nonzero operands is
    /// nonzero with the sign of the mathematical product.  A product whose
    /// mantissa is too wide, or whose scale exceeds 28, is rescaled
    /// (`Buf24::rescale`, or the 64-bit path of `mul_impl`) by dropping the
    /// fewest trailing digits that make it fit with a scale of at most 28,
    /// rounding what is dropped; so where the product ends in `j` zeros whose
    /// removal makes it fit, its value is kept exactly.
    #[verifier::external_body]
    pub(crate) fn checked_mul(&self, other: &Decimal) -> (r: Option<Decimal>)
        ensures
            match rd_checked_mul(self.mant(), self.exp() as int, other.mant(), other.exp() as int) {
                Some(p) => r is Some && r->0.has_parts(p),
                None => r is None,
            },
            (self.mant() == 0 || other.mant() == 0) ==> r is Some && r->0.mant() == 0
                && r->0.exp() == 0 && !r->0.is_neg(),
            (self.mant() != 0 && other.mant() != 0 && representable(
                self.mant() * other.mant(),
                (self.exp() + other.exp()) as int,
            )) ==> r is Some && r->0.mant() == self.mant() * other.mant() && r->0.exp()
                == self.exp() + other.exp(),
            (self.mant() != 0 && other.mant() != 0 && self.exp() + other.exp() <= MAX_SCALE
                && r is Some) ==> r->0.mant() != 0 && (r->0.mant() < 0) == ((self.mant() < 0)
                != (other.mant() < 0)),
            forall|j: nat|
                #![trigger pow10(j)]
                (self.mant() != 0 && other.mant() != 0 && j <= self.exp() + other.exp() && (
                self.mant() * other.mant()) % pow10(j) == 0 && representable(
                    (self.mant() * other.mant()) / pow10(j),
                    self.exp() + other.exp() - j,
                )) ==> r is Some && value_eq(
                    r->0.mant(),
                    r->0.exp(),
                    self.mant() * other.mant(),
                    self.exp() + other.exp(),
                ),
    {
        let mut a = rust_decimal::Decimal::from_i128_with_scale(self.m, self.s);
        a.set_sign_negative(self.neg);
        let mut b = rust_decimal::Decimal::from_i128_with_scale(other.m, other.s);
        b.set_sign_negative(other.neg);
        match a.checked_mul(b) {
            Some(r) => Some(Decimal { m: r.mantissa(), s: r.scale(), neg: r.is_sign_negative() }),
            None => None,
        }
    }

    /// `checked_div`; `None` for division by zero or a quotient that overflows,
    /// so never for a nonzero integer divisor, whose quotient is no larger than
    /// the dividend.  An integer divided by 10^9, or by 10^4, is exact, with a
    /// scale of at most 9, where the integer times 10^(9-k) fits in 96 bits:
    /// the first scaling step of the remainder loop multiplies the quotient by
    /// 10^9 (`find_scale` allows it), after which nothing remains.
    #[verifier::external_body]
    pub(crate) fn checked_div(&self, other: &Decimal) -> (r: Option<Decimal>)
        ensures
            match rd_checked_div(self.mant(), self.exp() as int, other.mant(), other.exp() as int) {
                Some(p) => r is Some && r->0.has_parts(p),
                None => r is None,
            },
            other.mant() == 0 ==> r is None,
            (other.mant() != 0 && other.exp() == 0) ==> r is Some,
            (self.exp() == 0 && other.mant() == 1_000_000_000 && other.exp() == 0) ==> r is Some
                && value_eq(r->0.mant(), r->0.exp(), self.mant(), 9) && r->0.exp() <= 9,
            (self.exp() == 0 && other.mant() == 10_000 && other.exp() == 0 && -MAX_MANTISSA
                <= self.mant() * 100_000 <= MAX_MANTISSA) ==> r is Some && value_eq(
                r->0.mant(),
                r->0.exp(),
                self.mant(),
                4,
            ) && r->0.exp() <= 9,
    {
        let mut a = rust_decimal::Decimal::from_i128_with_scale(self.m, self.s);
        a.set_sign_negative(self.neg);
        let mut b = rust_decimal::Decimal::from_i128_with_scale(other.m, other.s);
        b.set_sign_negative(other.neg);
        match a.checked_div(b) {
            Some(r) => Some(Decimal { m: r.mantissa(), s: r.scale(), neg: r.is_sign_negative() }),
            None => None,
        }
    }

    /// `self - other`, which panics where `checked_sub` gives `None`.
    pub fn sub(&self, other: &Decimal) -> (d: Decimal)
        requires
            rd_checked_sub(self.mant(), self.exp() as int, other.mant(), other.exp() as int) is Some,
        ensures
            d.has_parts(
                rd_checked_sub(self.mant(), self.exp() as int, other.mant(), other.exp() as int)->0,
            ),
    {
        self.checked_sub(other).unwrap()
    }

    /// `self * other`, which panics where `checked_mul` gives `None`.  A
    /// product with a zero operand is an unsigned zero; a nonzero value times
    /// a nonzero integer is nonzero, with the sign of the mathematical product,
    /// and keeps its value exactly where dropping trailing zeros makes it fit.
    pub fn mul(&self, other: &Decimal) -> (d: Decimal)
        requires
            rd_checked_mul(self.mant(), self.exp() as int, other.mant(), other.exp() as int) is Some,
        ensures
            d.has_parts(
                rd_checked_mul(self.mant(), self.exp() as int, other.mant(), other.exp() as int)->0,
            ),
            (self.mant() == 0 || other.mant() == 0) ==> d.mant() == 0 && d.exp() == 0
                && !d.is_neg(),
            representable(self.mant() * other.mant(), (self.exp() + other.exp()) as int) ==> d.mant()
                == self.mant() * other.mant() && (d.exp() == self.exp() + other.exp() || d.mant()
                == 0),
            (self.mant() != 0 && other.mant() != 0 && other.exp() == 0) ==> d.mant() != 0 && (
            d.mant() < 0) == ((self.mant() < 0) != (other.mant() < 0)),
            forall|j: nat|
                #![trigger pow10(j)]
                (other.exp() == 0 && self.mant() != 0 && other.mant() != 0 && j <= self.exp() && (
                self.mant() * other.mant()) % pow10(j) == 0 && representable(
                    (self.mant() * other.mant()) / pow10(j),
                    self.exp() - j,
                )) ==> value_eq(d.mant(), d.exp(), self.mant() * other.mant(), self.exp()),
    {
        proof {
            use_type_invariant(self);
            assert(self.mant() != 0 && other.mant() != 0 ==> self.mant() * other.mant() != 0)
                by (nonlinear_arith);
        }
        self.checked_mul(other).unwrap()
    }

    /// `self / other`, which panics where `checked_div` gives `None`.  An
    /// integer divided by 10^9 is exact, with a scale of at most 9.
    pub fn div(&self, other: &Decimal) -> (d: Decimal)
        requires
            rd_checked_div(self.mant(), self.exp() as int, other.mant(), other.exp() as int) is Some,
        ensures
            d.has_parts(
                rd_checked_div(self.mant(), self.exp() as int, other.mant(), other.exp() as int)->0,
            ),
            (self.exp() == 0 && other.mant() == 1_000_000_000 && other.exp() == 0) ==> value_eq(
                d.mant(),
                d.exp(),
                self.mant(),
                9,
            ) && d.exp() <= 9,
    {
        self.checked_div(other).unwrap()
    }

    /// `Decimal::from_str`.
    #[verifier::external_body]
    pub(crate) fn parse(text: &str) -> (r: Option<Decimal>)
        ensures
            match rd_from_str(text@) {
                Some(p) => r is Some && r->0.has_parts(p),
                None => r is None,
            },
    {
        match <rust_decimal::Decimal as std::str::FromStr>::from_str(text) {
            Ok(r) => Some(Decimal { m: r.mantissa(), s: r.scale(), neg: r.is_sign_negative() }),
            Err(_) => None,
        }
    }

    /// `Decimal::from_str_exact`, which refuses a number that it cannot hold
    /// without rounding; an error gives its text.
    #[verifier::external_body]
    pub(crate) fn parse_exact(text: &str) -> (r: Result<Decimal, String>)
        ensures
            match rd_from_str_exact(text@) {
                Ok(p) => r is Ok && r->Ok_0.has_parts(p),
                Err(m) => r is Err && r->Err_0@ == m,
            },
    {
        match rust_decimal::Decimal::from_str_exact(text) {
            Ok(r) => Ok(Decimal { m: r.mantissa(), s: r.scale(), neg: r.is_sign_negative() }),
            Err(e) => Err(e.to_string()),
        }
    }

    /// The text `Display` writes (`rust_decimal`'s `to_string`), in plain notation.
    #[verifier::external_body]
    pub(crate) fn to_text(&self) -> (s: String)
        ensures
            s@ == decimal_text(self.mant(), self.exp(), self.is_neg()),
    {
        let mut a = rust_decimal::Decimal::from_i128_with_scale(self.m, self.s);
        a.set_sign_negative(self.neg);
        a.to_string()
    }

}

impl PartialEq for Decimal {
    fn eq(&self, other: &Decimal) -> (b: bool) {
        self.num_eq(other)
    }
}

impl vstd::std_specs::cmp::PartialEqSpecImpl for Decimal {
    open spec fn obeys_eq_spec() -> bool {
        true
    }

    open spec fn eq_spec(&self, other: &Decimal) -> bool {
        self.spec_eq(*other)
    }
}

} // verus!
