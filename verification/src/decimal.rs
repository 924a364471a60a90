//! Exact decimal numbers, computed by `rust_decimal`.
//!
//! A [`Decimal`] holds the two plain values that identify a
//! `rust_decimal::Decimal`: its signed mantissa and its scale, so that its
//! value is `mantissa × 10^-scale`.  Arithmetic is delegated to
//! `rust_decimal`; the wrappers below state what that crate documents and
//! what its source shows.
use vstd::prelude::*;
use vstd::std_specs::cmp::PartialEqSpecImpl;

verus! {

/// Largest mantissa magnitude `rust_decimal` can hold: 2^96 - 1.
pub const MAX_MANTISSA: i128 = 79228162514264337593543950335i128;

/// Largest scale `rust_decimal` can hold.
pub const MAX_SCALE: u32 = 28u32;

/// `10^n`.
pub open spec fn pow10(n: nat) -> nat
    decreases n,
{
    if n == 0 {
        1
    } else {
        10 * pow10((n - 1) as nat)
    }
}

pub open spec fn abs(x: int) -> int {
    if x < 0 {
        -x
    } else {
        x
    }
}

/// A decimal number `mantissa × 10^-scale`.
#[derive(Clone, Copy, Debug)]
pub struct Decimal {
    pub mantissa: i128,
    pub scale: u32,
}

impl Decimal {
    /// The pair is one that `rust_decimal` can represent.
    pub open spec fn wf(self) -> bool {
        &&& -MAX_MANTISSA <= self.mantissa <= MAX_MANTISSA
        &&& self.scale <= MAX_SCALE
    }

    /// The value of the number, counted in units of `10^-28`.
    pub open spec fn units(self) -> int {
        self.mantissa * pow10((MAX_SCALE - self.scale) as nat)
    }

    /// The decimal with the given mantissa and scale.
    pub fn new(mantissa: i128, scale: u32) -> (r: Decimal)
        requires
            -MAX_MANTISSA <= mantissa <= MAX_MANTISSA,
            scale <= MAX_SCALE,
        ensures
            r.mantissa == mantissa,
            r.scale == scale,
            r.wf(),
    {
        Decimal { mantissa, scale }
    }

    /// The whole number `n`.
    pub fn from_int(n: i64) -> (r: Decimal)
        ensures
            r.mantissa == n,
            r.scale == 0,
            r.wf(),
    {
        Decimal { mantissa: n as i128, scale: 0 }
    }

    /// Zero.
    pub fn zero() -> (r: Decimal)
        ensures
            r.mantissa == 0,
            r.scale == 0,
            r.wf(),
    {
        Decimal { mantissa: 0, scale: 0 }
    }
}


/// `rust_decimal`'s result for `a * b`: `None` on overflow.
pub uninterp spec fn decimal_product(am: int, as_: nat, bm: int, bs: nat) -> Option<(int, nat)>;

/// `rust_decimal`'s result for `a + b`: `None` on overflow.
pub uninterp spec fn decimal_sum(am: int, as_: nat, bm: int, bs: nat) -> Option<(int, nat)>;

/// `rust_decimal`'s result for `a - b`: `None` on overflow.
pub uninterp spec fn decimal_difference(am: int, as_: nat, bm: int, bs: nat) -> Option<(int, nat)>;

/// `rust_decimal`'s result for `a / b`: `None` on overflow or division by zero.
pub uninterp spec fn decimal_quotient(am: int, as_: nat, bm: int, bs: nat) -> Option<(int, nat)>;

/// The plain pair of a decimal.
pub open spec fn pair(d: Decimal) -> (int, nat) {
    (d.mantissa as int, d.scale as nat)
}

/// An optional decimal taken as an optional plain pair.
pub open spec fn opt_pair(d: Option<Decimal>) -> Option<(int, nat)> {
    match d {
        Some(x) => Some(pair(x)),
        None => None,
    }
}

/// The decimal a plain pair stands for.
pub open spec fn of_pair(p: (int, nat)) -> Decimal {
    Decimal { mantissa: p.0 as i128, scale: p.1 as u32 }
}

/// Is `(m, s)` a pair that `rust_decimal` can represent?
pub open spec fn pair_fits(m: int, s: nat) -> bool {
    -MAX_MANTISSA <= m <= MAX_MANTISSA && s <= MAX_SCALE
}

/// Rounding of a decimal to `dp` fractional digits, midpoints to the even
/// neighbour, as `rust_decimal::Decimal::round_dp` does.
pub open spec fn round_dp_spec(d: Decimal, dp: u32) -> Decimal {
    if d.scale <= dp {
        d
    } else {
        let p = pow10((d.scale - dp) as nat) as int;
        let mag = abs(d.mantissa as int);
        let q = mag / p;
        let r = mag % p;
        let half = p / 2;
        let q2 = if r > half || (r == half && q % 2 == 1) {
            q + 1
        } else {
            q
        };
        Decimal { mantissa: (if d.mantissa < 0 { -q2 } else { q2 }) as i128, scale: dp }
    }
}

/// Rounds `d` to two fractional digits.
pub open spec fn round2(d: Decimal) -> Decimal {
    round_dp_spec(d, 2)
}

/// Exact alignment of two decimals at the larger of their scales.
pub open spec fn aligned(a: Decimal, b: Decimal) -> (int, int, nat) {
    let s = if a.scale >= b.scale { a.scale } else { b.scale };
    (
        a.mantissa * pow10((s - a.scale) as nat) as int,
        b.mantissa * pow10((s - b.scale) as nat) as int,
        s as nat,
    )
}

pub proof fn lemma_pow10_pos(n: nat)
    ensures
        pow10(n) >= 1,
    decreases n,
{
    if n > 0 {
        lemma_pow10_pos((n - 1) as nat);
    }
}

/// Multiplies two decimals with `rust_decimal`'s `checked_mul`.
///
/// Trusted: the result is `rust_decimal`'s (named by `decimal_product`); when
/// either side is zero it is `0` at scale 0, and when the exact product of
/// the mantissas fits in 96 bits at a scale of at most 28 it is that exact
/// product, as `rust_decimal`'s `mul_impl`/`finish_mul` show.
#[verifier::external_body]
pub(crate) fn checked_mul(a: Decimal, b: Decimal) -> (r: Option<Decimal>)
    requires
        a.wf(),
        b.wf(),
    ensures
        opt_pair(r) == decimal_product(a.mantissa as int, a.scale as nat, b.mantissa as int, b.scale as nat),
        r matches Some(x) ==> x.wf(),
        (a.mantissa == 0 || b.mantissa == 0) ==> r == Some(Decimal { mantissa: 0, scale: 0 }),
        (a.mantissa != 0 && b.mantissa != 0 && pair_fits(a.mantissa * b.mantissa, (a.scale + b.scale) as nat))
            ==> r == Some(Decimal { mantissa: (a.mantissa * b.mantissa) as i128, scale: (a.scale + b.scale) as u32 }),
{
    let x = rust_decimal::Decimal::from_i128_with_scale(a.mantissa, a.scale);
    let y = rust_decimal::Decimal::from_i128_with_scale(b.mantissa, b.scale);
    match x.checked_mul(y) {
        Some(p) => Some(Decimal { mantissa: p.mantissa(), scale: p.scale() }),
        None => None,
    }
}

/// Adds two decimals with `rust_decimal`'s `checked_add`.
///
/// Trusted: the result is `rust_decimal`'s (named by `decimal_sum`); a zero
/// operand gives back the other operand unchanged, and when both operands
/// and their exact sum fit in 96 bits at the larger scale, the result is that
/// exact sum at that scale (`add_sub_internal` in `ops/add.rs`).
#[verifier::external_body]
pub(crate) fn checked_add(a: Decimal, b: Decimal) -> (r: Option<Decimal>)
    requires
        a.wf(),
        b.wf(),
    ensures
        opt_pair(r) == decimal_sum(a.mantissa as int, a.scale as nat, b.mantissa as int, b.scale as nat),
        r matches Some(x) ==> x.wf(),
        a.mantissa == 0 ==> r == Some(b),
        (a.mantissa != 0 && b.mantissa == 0) ==> r == Some(a),
        ({
            let (x, y, s) = aligned(a, b);
            (a.mantissa != 0 && b.mantissa != 0 && pair_fits(x, s) && pair_fits(y, s) && pair_fits(x + y, s))
                ==> r == Some(Decimal { mantissa: (x + y) as i128, scale: s as u32 })
        }),
{
    let x = rust_decimal::Decimal::from_i128_with_scale(a.mantissa, a.scale);
    let y = rust_decimal::Decimal::from_i128_with_scale(b.mantissa, b.scale);
    match x.checked_add(y) {
        Some(p) => Some(Decimal { mantissa: p.mantissa(), scale: p.scale() }),
        None => None,
    }
}

/// Subtracts two decimals with `rust_decimal`'s `checked_sub`.
///
/// Trusted: the result is `rust_decimal`'s (named by `decimal_difference`);
/// subtracting zero gives back the left operand, and when both operands and
/// their exact difference fit in 96 bits at the larger scale, the result is
/// that exact difference at that scale.
#[verifier::external_body]
pub(crate) fn checked_sub(a: Decimal, b: Decimal) -> (r: Option<Decimal>)
    requires
        a.wf(),
        b.wf(),
    ensures
        opt_pair(r) == decimal_difference(a.mantissa as int, a.scale as nat, b.mantissa as int, b.scale as nat),
        r matches Some(x) ==> x.wf(),
        (a.mantissa != 0 && b.mantissa == 0) ==> r == Some(a),
        ({
            let (x, y, s) = aligned(a, b);
            (a.mantissa != 0 && b.mantissa != 0 && pair_fits(x, s) && pair_fits(y, s) && pair_fits(x - y, s))
                ==> r == Some(Decimal { mantissa: (x - y) as i128, scale: s as u32 })
        }),
{
    let x = rust_decimal::Decimal::from_i128_with_scale(a.mantissa, a.scale);
    let y = rust_decimal::Decimal::from_i128_with_scale(b.mantissa, b.scale);
    match x.checked_sub(y) {
        Some(p) => Some(Decimal { mantissa: p.mantissa(), scale: p.scale() }),
        None => None,
    }
}

/// Divides two decimals with `rust_decimal`'s `checked_div`.
///
/// Trusted: the result is `rust_decimal`'s (named by `decimal_quotient`);
/// it is `None` when dividing by zero, and zero at scale 0 when dividing
/// zero by anything else (`div_impl` in `ops/div.rs`).  What the quotient is
/// in general is left to the name.
#[verifier::external_body]
pub(crate) fn checked_div(a: Decimal, b: Decimal) -> (r: Option<Decimal>)
    requires
        a.wf(),
        b.wf(),
    ensures
        opt_pair(r) == decimal_quotient(a.mantissa as int, a.scale as nat, b.mantissa as int, b.scale as nat),
        r matches Some(x) ==> x.wf(),
        b.mantissa == 0 ==> r is None,
        (a.mantissa == 0 && b.mantissa != 0) ==> r == Some(Decimal { mantissa: 0, scale: 0 }),
{
    let x = rust_decimal::Decimal::from_i128_with_scale(a.mantissa, a.scale);
    let y = rust_decimal::Decimal::from_i128_with_scale(b.mantissa, b.scale);
    match x.checked_div(y) {
        Some(p) => Some(Decimal { mantissa: p.mantissa(), scale: p.scale() }),
        None => None,
    }
}

/// Rounds with `rust_decimal`'s `round_dp` (midpoint to even).
///
/// Trusted: the result is [`round_dp_spec`], as `round_dp_with_strategy`
/// with `MidpointNearestEven` computes it.
#[verifier::external_body]
pub(crate) fn round_dp(a: Decimal, dp: u32) -> (r: Decimal)
    requires
        a.wf(),
    ensures
        r == round_dp_spec(a, dp),
        r.wf() || dp > MAX_SCALE,
{
    let x = rust_decimal::Decimal::from_i128_with_scale(a.mantissa, a.scale);
    let p = x.round_dp(dp);
    Decimal { mantissa: p.mantissa(), scale: p.scale() }
}

/// Numeric `a < b`, with `rust_decimal`'s ordering.
///
/// Trusted: `rust_decimal` orders decimals by value.
#[verifier::external_body]
pub(crate) fn less_than(a: Decimal, b: Decimal) -> (r: bool)
    requires
        a.wf(),
        b.wf(),
    ensures
        r == (a.units() < b.units()),
{
    let x = rust_decimal::Decimal::from_i128_with_scale(a.mantissa, a.scale);
    let y = rust_decimal::Decimal::from_i128_with_scale(b.mantissa, b.scale);
    x < y
}

/// Numeric `a == b`, with `rust_decimal`'s equality.
///
/// Trusted: `rust_decimal` compares decimals by value.
#[verifier::external_body]
pub(crate) fn equal_value(a: Decimal, b: Decimal) -> (r: bool)
    requires
        a.wf(),
        b.wf(),
    ensures
        r == (a.units() == b.units()),
{
    let x = rust_decimal::Decimal::from_i128_with_scale(a.mantissa, a.scale);
    let y = rust_decimal::Decimal::from_i128_with_scale(b.mantissa, b.scale);
    x == y
}

/// `rust_decimal`'s reading of a decimal literal: `None` when `from_str` rejects it.
pub uninterp spec fn decimal_parse(text: Seq<char>) -> Option<(int, nat)>;

/// Reads a decimal such as `"1.5"` or `"-200"`.
///
/// Trusted: calls `<rust_decimal::Decimal as FromStr>::from_str`; the result
/// is named by [`decimal_parse`] and is a decimal `rust_decimal` can hold.
#[verifier::external_body]
pub(crate) fn parse_decimal(text: &str) -> (r: Option<Decimal>)
    ensures
        opt_pair(r) == decimal_parse(text@),
        r matches Some(x) ==> x.wf(),
{
    match <rust_decimal::Decimal as core::str::FromStr>::from_str(text) {
        Ok(p) => Some(Decimal { mantissa: p.mantissa(), scale: p.scale() }),
        Err(_) => None,
    }
}

impl Decimal {
    /// Is the pair one that `rust_decimal` can represent?
    pub fn is_wf(&self) -> (r: bool)
        ensures
            r == self.wf(),
    {
        -MAX_MANTISSA <= self.mantissa && self.mantissa <= MAX_MANTISSA && self.scale <= MAX_SCALE
    }
}

/// Decimals compare by value, as `rust_decimal`'s do: `1100` equals
/// `1100.00`.  A pair outside `rust_decimal`'s range equals only itself.
impl PartialEq for Decimal {
    fn eq(&self, other: &Decimal) -> (r: bool) {
        if self.is_wf() && other.is_wf() {
            equal_value(*self, *other)
        } else {
            self.mantissa == other.mantissa && self.scale == other.scale
        }
    }
}

impl PartialEqSpecImpl for Decimal {
    open spec fn obeys_eq_spec() -> bool {
        true
    }

    open spec fn eq_spec(&self, other: &Decimal) -> bool {
        if self.wf() && other.wf() {
            self.units() == other.units()
        } else {
            self.mantissa == other.mantissa && self.scale == other.scale
        }
    }
}

} // verus!
