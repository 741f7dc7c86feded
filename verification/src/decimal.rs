//! A signed decimal number `mantissa / 10^scale`, with a 96-bit mantissa and
//! at most 28 fractional digits. Arithmetic and parsing are done by the
//! `rust_decimal` crate; this type carries its values as plain integers.

use vstd::prelude::*;
use vstd::std_specs::cmp::PartialEqSpecImpl;

verus! {

/// The largest magnitude a mantissa can have: 2^96 - 1.
pub const MAX_MANTISSA: i128 = 79228162514264337593543950335;

/// The largest number of fractional digits.
pub const MAX_SCALE: u32 = 28;

/// 10 raised to `n`.
pub open spec fn pow10(n: nat) -> int
    decreases n,
{
    if n == 0 {
        1
    } else {
        10 * pow10((n - 1) as nat)
    }
}

/// A mantissa and a scale that a `Decimal` can hold.
pub open spec fn is_repr(v: (int, nat)) -> bool {
    &&& -MAX_MANTISSA <= v.0 <= MAX_MANTISSA
    &&& v.1 <= MAX_SCALE
}

/// `a` and `b` denote the same number: `a.0 / 10^a.1 == b.0 / 10^b.1`.
pub open spec fn same_value(a: (int, nat), b: (int, nat)) -> bool {
    a.0 * pow10(b.1) == b.0 * pow10(a.1)
}

/// A decimal number. Its view is the pair (mantissa, scale); the number is
/// `mantissa / 10^scale`. Zero has no sign.
#[derive(Clone, Copy, Debug)]
pub struct Decimal {
    mantissa: i128,
    scale: u32,
}

impl View for Decimal {
    type V = (int, nat);

    closed spec fn view(&self) -> (int, nat) {
        (self.mantissa as int, self.scale as nat)
    }
}


/// The view of an optional decimal.
pub open spec fn opt_view(d: Option<Decimal>) -> Option<(int, nat)> {
    match d {
        Some(x) => Some(x@),
        None => None,
    }
}

/// The magnitude of `x`.
pub open spec fn abs(x: int) -> int {
    if x < 0 {
        -x
    } else {
        x
    }
}

/// `a * b` needs no rounding: both are nonzero, the scales add up to at most
/// 28 and the product of the mantissas fits in 96 bits.
pub open spec fn product_is_exact(a: (int, nat), b: (int, nat)) -> bool {
    &&& a.0 != 0
    &&& b.0 != 0
    &&& a.1 + b.1 <= MAX_SCALE
    &&& abs(a.0 * b.0) <= MAX_MANTISSA
}

/// `a / b` takes the short path that needs no rounding: `b` is nonzero with a
/// mantissa of at most 32 bits, `b` has no more fractional digits than `a`, and
/// `b`'s mantissa divides `a`'s.
pub open spec fn quotient_is_exact(a: (int, nat), b: (int, nat)) -> bool {
    &&& a.0 != 0
    &&& b.0 != 0
    &&& abs(b.0) <= 0xffff_ffff
    &&& b.1 <= a.1
    &&& a.0 % b.0 == 0
}

/// `v` rounded to `dp` fractional digits, a tie going to the even neighbour.
/// A value with no more than `dp` fractional digits is kept as it is.
pub open spec fn round_half_even(v: (int, nat), dp: nat) -> (int, nat) {
    if v.1 <= dp {
        v
    } else if v.0 == 0 {
        (0, dp)
    } else {
        let unit = pow10((v.1 - dp) as nat);
        let q = abs(v.0) / unit;
        let r = abs(v.0) % unit;
        let half = unit / 2;
        let up = r > half || (r == half && q % 2 == 1);
        let q2 = if up {
            q + 1
        } else {
            q
        };
        (if v.0 < 0 {
            -q2
        } else {
            q2
        }, dp)
    }
}

/// What `rust_decimal` gives for `a * b` (`Decimal::checked_mul`): `None`
/// where the product overflows; where more than 28 fractional digits or more
/// than 96 bits would be needed, a rounded product.
pub uninterp spec fn decimal_product(a: (int, nat), b: (int, nat)) -> Option<(int, nat)>;

/// What `rust_decimal` gives for `a / b` (`Decimal::checked_div`): `None`
/// where `b` is zero or the quotient overflows; otherwise the quotient,
/// rounded to what 96 bits and 28 fractional digits can hold.
pub uninterp spec fn decimal_quotient(a: (int, nat), b: (int, nat)) -> Option<(int, nat)>;

/// What `rust_decimal` gives for parsing `text` as a decimal number
/// (`<Decimal as FromStr>::from_str`), `None` where it reports an error.
pub uninterp spec fn decimal_parse(text: Seq<char>) -> Option<(int, nat)>;

/// Multiplies through `rust_decimal::Decimal::checked_mul`. Both operands are
/// in range by the type's invariant, so the conversions cannot panic.
/// Claimed of `rust_decimal`'s multiplication: a zero operand gives zero at
/// scale 0; a product that needs no rounding is exact, with the scales added.
/// What it rounds to otherwise, and when it overflows, is left to the name.
#[verifier::external_body]
fn checked_mul(a: Decimal, b: Decimal) -> (r: Option<Decimal>)
    ensures
        opt_view(r) == decimal_product(a@, b@),
        (a@.0 == 0 || b@.0 == 0) ==> opt_view(r) == Some((0int, 0nat)),
        product_is_exact(a@, b@) ==> opt_view(r) == Some((a@.0 * b@.0, a@.1 + b@.1)),
{
    let x = rust_decimal::Decimal::from_i128_with_scale(a.mantissa, a.scale);
    let y = rust_decimal::Decimal::from_i128_with_scale(b.mantissa, b.scale);
    match x.checked_mul(y) {
        Some(p) => Some(Decimal { mantissa: p.mantissa(), scale: p.scale() }),
        None => None,
    }
}

/// Divides through `rust_decimal::Decimal::checked_div`. Claimed of
/// `rust_decimal`'s division: a zero divisor gives `None`; a zero dividend
/// gives zero at scale 0; a divisor of at most 32 bits that divides the
/// dividend, with no more fractional digits than it, gives the exact quotient
/// at the difference of the scales. The rounded cases are left to the name.
#[verifier::external_body]
fn checked_div(a: Decimal, b: Decimal) -> (r: Option<Decimal>)
    ensures
        opt_view(r) == decimal_quotient(a@, b@),
        b@.0 == 0 ==> r is None,
        (a@.0 == 0 && b@.0 != 0) ==> opt_view(r) == Some((0int, 0nat)),
        quotient_is_exact(a@, b@) ==> opt_view(r) == Some((a@.0 / b@.0, (a@.1 - b@.1) as nat)),
{
    let x = rust_decimal::Decimal::from_i128_with_scale(a.mantissa, a.scale);
    let y = rust_decimal::Decimal::from_i128_with_scale(b.mantissa, b.scale);
    match x.checked_div(y) {
        Some(q) => Some(Decimal { mantissa: q.mantissa(), scale: q.scale() }),
        None => None,
    }
}

/// Parses through `<rust_decimal::Decimal as FromStr>::from_str`; its result
/// is left to the name.
#[verifier::external_body]
fn parse_text(text: &str) -> (r: Option<Decimal>)
    ensures
        opt_view(r) == decimal_parse(text@),
{
    match text.parse::<rust_decimal::Decimal>() {
        Ok(d) => Some(Decimal { mantissa: d.mantissa(), scale: d.scale() }),
        Err(_) => None,
    }
}

/// Compares through `<rust_decimal::Decimal as PartialEq>::eq`, which
/// compares the numbers, not their representations.
#[verifier::external_body]
fn numbers_equal(a: Decimal, b: Decimal) -> (r: bool)
    ensures
        r == same_value(a@, b@),
{
    let x = rust_decimal::Decimal::from_i128_with_scale(a.mantissa, a.scale);
    let y = rust_decimal::Decimal::from_i128_with_scale(b.mantissa, b.scale);
    x == y
}

/// Rounds through `rust_decimal::Decimal::round_dp`, which rounds half to
/// even (`round_dp_with_strategy` with `MidpointNearestEven`).
#[verifier::external_body]
fn rounded(a: Decimal, dp: u32) -> (r: Decimal)
    ensures
        r@ == round_half_even(a@, dp as nat),
{
    let x = rust_decimal::Decimal::from_i128_with_scale(a.mantissa, a.scale);
    let y = x.round_dp(dp);
    Decimal { mantissa: y.mantissa(), scale: y.scale() }
}

impl Decimal {
    #[verifier::type_invariant]
    closed spec fn well_formed(self) -> bool {
        is_repr(self@)
    }

    /// The number `mantissa / 10^scale`.
    pub fn new(mantissa: i64, scale: u32) -> (d: Decimal)
        requires
            scale <= MAX_SCALE,
        ensures
            d@ == (mantissa as int, scale as nat),
    {
        Decimal { mantissa: mantissa as i128, scale }
    }

    /// The number `mantissa / 10^scale`, or `None` where the pair is out of range.
    pub fn from_parts(mantissa: i128, scale: u32) -> (d: Option<Decimal>)
        ensures
            d is Some <==> is_repr((mantissa as int, scale as nat)),
            d matches Some(x) ==> x@ == (mantissa as int, scale as nat),
    {
        if scale <= MAX_SCALE && -MAX_MANTISSA <= mantissa && mantissa <= MAX_MANTISSA {
            Some(Decimal { mantissa, scale })
        } else {
            None
        }
    }

    /// The whole number `n`.
    pub fn from_u8(n: u8) -> (d: Decimal)
        ensures
            d@ == (n as int, 0nat),
    {
        Decimal { mantissa: n as i128, scale: 0 }
    }

    /// Zero.
    pub fn zero() -> (d: Decimal)
        ensures
            d@ == (0int, 0nat),
    {
        Decimal { mantissa: 0, scale: 0 }
    }

    pub fn mantissa(&self) -> (m: i128)
        ensures
            m == self@.0,
            -MAX_MANTISSA <= m <= MAX_MANTISSA,
    {
        proof {
            use_type_invariant(self);
        }
        self.mantissa
    }

    pub fn scale(&self) -> (s: u32)
        ensures
            s == self@.1,
            s <= MAX_SCALE,
    {
        proof {
            use_type_invariant(self);
        }
        self.scale
    }


    /// `self * other`, or `None` where `rust_decimal` reports an overflow.
    pub fn checked_mul(self, other: Decimal) -> (r: Option<Decimal>)
        ensures
            opt_view(r) == decimal_product(self@, other@),
            (self@.0 == 0 || other@.0 == 0) ==> opt_view(r) == Some((0int, 0nat)),
            product_is_exact(self@, other@) ==> opt_view(r) == Some(
                (self@.0 * other@.0, self@.1 + other@.1),
            ),
    {
        checked_mul(self, other)
    }

    /// `self / other`, or `None` where `other` is zero or the quotient overflows.
    pub fn checked_div(self, other: Decimal) -> (r: Option<Decimal>)
        ensures
            opt_view(r) == decimal_quotient(self@, other@),
            other@.0 == 0 ==> r is None,
            (self@.0 == 0 && other@.0 != 0) ==> opt_view(r) == Some((0int, 0nat)),
            quotient_is_exact(self@, other@) ==> opt_view(r) == Some(
                (self@.0 / other@.0, (self@.1 - other@.1) as nat),
            ),
    {
        checked_div(self, other)
    }

    /// Parses a decimal number, `None` where the text is not one.
    pub fn parse(text: &str) -> (r: Option<Decimal>)
        ensures
            opt_view(r) == decimal_parse(text@),
    {
        parse_text(text)
    }

    /// The number rounded to `dp` fractional digits, a tie going to the even
    /// neighbour.
    pub fn round_dp(&self, dp: u32) -> (r: Decimal)
        ensures
            r@ == round_half_even(self@, dp as nat),
    {
        rounded(*self, dp)
    }

    /// Whether the number is below zero.
    pub fn is_negative(&self) -> (b: bool)
        ensures
            b == (self@.0 < 0),
    {
        self.mantissa < 0
    }

    /// Whether the number is above zero.
    pub fn is_positive(&self) -> (b: bool)
        ensures
            b == (self@.0 > 0),
    {
        self.mantissa > 0
    }
}

impl PartialEq for Decimal {
    /// Two decimals are equal when they denote the same number, whatever
    /// their scales: 2.0 equals 2.
    fn eq(&self, other: &Decimal) -> (r: bool) {
        numbers_equal(*self, *other)
    }
}

impl PartialEqSpecImpl for Decimal {
    open spec fn obeys_eq_spec() -> bool {
        true
    }

    open spec fn eq_spec(&self, other: &Decimal) -> bool {
        same_value(self@, other@)
    }
}

} // verus!
