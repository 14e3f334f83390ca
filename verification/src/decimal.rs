//! Exact decimal amounts.
//!
//! An [`Amount`] is a number of the form `mantissa / 10^scale`, the value set
//! of `rust_decimal::Decimal`. The library keeps the two integers; every
//! operation that rounds or can overflow is carried out by `rust_decimal`
//! and returned as the same two integers.

use rust_decimal::Decimal;
use vstd::arithmetic::power::{lemma_pow0, lemma_pow_positive, pow};
use vstd::prelude::*;

verus! {

/// The largest magnitude a mantissa can have: `2^96 - 1`.
pub const MAX_MANTISSA: i128 = 79_228_162_514_264_337_593_543_950_335;

/// The largest number of fractional digits.
pub const MAX_SCALE: u32 = 28;

/// The mathematical content of an [`Amount`]: the number `mantissa / 10^scale`.
pub struct Fixed {
    pub mantissa: int,
    pub scale: int,
}

impl Fixed {
    /// Whether the pair is one that an [`Amount`] can hold.
    pub open spec fn representable(self) -> bool {
        &&& -MAX_MANTISSA <= self.mantissa <= MAX_MANTISSA
        &&& 0 <= self.scale <= MAX_SCALE
    }

    /// Whether the number is zero.
    pub open spec fn is_zero(self) -> bool {
        self.mantissa == 0
    }

    /// Numeric order: `self > other`, decided by cross-multiplication so that
    /// amounts of different scale compare by value.
    pub open spec fn greater_than(self, other: Fixed) -> bool {
        self.mantissa * pow(10, other.scale as nat) > other.mantissa * pow(10, self.scale as nat)
    }
}

/// An exact decimal number with at most 28 fractional digits and a 96-bit
/// mantissa.
///
/// `==` compares mantissa and scale, so `0.5` and `0.50` are different
/// amounts; [`Amount::exceeds`] compares by value.
#[derive(Debug, Clone, Copy, PartialEq, Eq)]
pub struct Amount {
    mantissa: i128,
    scale: u32,
}

impl View for Amount {
    type V = Fixed;

    closed spec fn view(&self) -> Fixed {
        Fixed { mantissa: self.mantissa as int, scale: self.scale as int }
    }
}

/// The view of an optional amount.
pub open spec fn optional_fixed(amount: Option<Amount>) -> Option<Fixed> {
    match amount {
        Some(a) => Some(a@),
        None => None,
    }
}

/// What `rust_decimal` makes of a piece of text: the mantissa and scale of
/// the parsed number, or `None` where it rejects the text.
pub uninterp spec fn decimal_parse(text: Seq<char>) -> Option<(int, int)>;

/// The mantissa and scale of `rust_decimal`'s checked difference of two
/// numbers, or `None` where it reports overflow.
pub uninterp spec fn decimal_difference(
    left_mantissa: int,
    left_scale: int,
    right_mantissa: int,
    right_scale: int,
) -> Option<(int, int)>;

/// The mantissa and scale of `rust_decimal`'s checked quotient of two
/// numbers, or `None` where it reports a zero divisor or overflow.
pub uninterp spec fn decimal_quotient(
    left_mantissa: int,
    left_scale: int,
    right_mantissa: int,
    right_scale: int,
) -> Option<(int, int)>;

/// The mantissa and scale of `rust_decimal`'s checked product of two
/// numbers, or `None` where it reports overflow.
pub uninterp spec fn decimal_product(
    left_mantissa: int,
    left_scale: int,
    right_mantissa: int,
    right_scale: int,
) -> Option<(int, int)>;

/// A mantissa and a scale, where there are any, as a number.
pub open spec fn named(parts: Option<(int, int)>) -> Option<Fixed> {
    match parts {
        Some((mantissa, scale)) => Some(Fixed { mantissa, scale }),
        None => None,
    }
}

/// The parse of `text`.
pub open spec fn parse_of(text: Seq<char>) -> Option<Fixed> {
    named(decimal_parse(text))
}

/// The checked difference `left - right`.
pub open spec fn difference_of(left: Fixed, right: Fixed) -> Option<Fixed> {
    named(decimal_difference(left.mantissa, left.scale, right.mantissa, right.scale))
}

/// The checked quotient `left / right`.
pub open spec fn quotient_of(left: Fixed, right: Fixed) -> Option<Fixed> {
    named(decimal_quotient(left.mantissa, left.scale, right.mantissa, right.scale))
}

/// The checked product `left * right`.
pub open spec fn product_of(left: Fixed, right: Fixed) -> Option<Fixed> {
    named(decimal_product(left.mantissa, left.scale, right.mantissa, right.scale))
}

/// Calls `str::parse::<rust_decimal::Decimal>`, that is `Decimal::from_str`.
///
/// Trusted: the outcome is a function of the text alone, named
/// [`decimal_parse`]; a parsed number has a mantissa of at most 96 bits and
/// a scale of at most 28, as every `Decimal` has.
#[verifier::external_body]
fn decimal_from_str(text: &str) -> (parsed: Option<Amount>)
    ensures
        optional_fixed(parsed) == named(decimal_parse(text@)),
        parsed matches Some(a) ==> a@.representable(),
{
    match text.parse::<Decimal>() {
        Ok(d) => Some(Amount { mantissa: d.mantissa(), scale: d.scale() }),
        Err(_) => None,
    }
}

/// Calls `Decimal::checked_sub`.
///
/// Trusted: the outcome is a function of the two operands alone, named
/// [`decimal_difference`], and is a `Decimal` like any other.
#[verifier::external_body]
fn decimal_checked_sub(left: Amount, right: Amount) -> (out: Option<Amount>)
    requires
        left@.representable(),
        right@.representable(),
    ensures
        optional_fixed(out) == named(
            decimal_difference(left@.mantissa, left@.scale, right@.mantissa, right@.scale),
        ),
        out matches Some(a) ==> a@.representable(),
{
    let x = Decimal::from_i128_with_scale(left.mantissa, left.scale);
    let y = Decimal::from_i128_with_scale(right.mantissa, right.scale);
    match x.checked_sub(y) {
        Some(d) => Some(Amount { mantissa: d.mantissa(), scale: d.scale() }),
        None => None,
    }
}

/// Calls `Decimal::checked_div`.
///
/// Trusted: the outcome is a function of the two operands alone, named
/// [`decimal_quotient`], and is a `Decimal` like any other.
#[verifier::external_body]
fn decimal_checked_div(left: Amount, right: Amount) -> (out: Option<Amount>)
    requires
        left@.representable(),
        right@.representable(),
    ensures
        optional_fixed(out) == named(
            decimal_quotient(left@.mantissa, left@.scale, right@.mantissa, right@.scale),
        ),
        out matches Some(a) ==> a@.representable(),
{
    let x = Decimal::from_i128_with_scale(left.mantissa, left.scale);
    let y = Decimal::from_i128_with_scale(right.mantissa, right.scale);
    match x.checked_div(y) {
        Some(d) => Some(Amount { mantissa: d.mantissa(), scale: d.scale() }),
        None => None,
    }
}

/// Calls `Decimal::checked_mul`.
///
/// Trusted: the outcome is a function of the two operands alone, named
/// [`decimal_product`], and is a `Decimal` like any other.
#[verifier::external_body]
fn decimal_checked_mul(left: Amount, right: Amount) -> (out: Option<Amount>)
    requires
        left@.representable(),
        right@.representable(),
    ensures
        optional_fixed(out) == named(
            decimal_product(left@.mantissa, left@.scale, right@.mantissa, right@.scale),
        ),
        out matches Some(a) ==> a@.representable(),
{
    let x = Decimal::from_i128_with_scale(left.mantissa, left.scale);
    let y = Decimal::from_i128_with_scale(right.mantissa, right.scale);
    match x.checked_mul(y) {
        Some(d) => Some(Amount { mantissa: d.mantissa(), scale: d.scale() }),
        None => None,
    }
}

/// Calls `>` of `Decimal`, its `PartialOrd`.
///
/// Trusted: `Decimal` orders by numeric value, whatever the scales.
#[verifier::external_body]
fn decimal_greater(left: Amount, right: Amount) -> (greater: bool)
    requires
        left@.representable(),
        right@.representable(),
    ensures
        greater == left@.greater_than(right@),
{
    let x = Decimal::from_i128_with_scale(left.mantissa, left.scale);
    let y = Decimal::from_i128_with_scale(right.mantissa, right.scale);
    x > y
}

impl Amount {
    #[verifier::type_invariant]
    spec fn well_formed(self) -> bool {
        self@.representable()
    }

    /// The amount `mantissa / 10^scale`, or `None` where the mantissa needs
    /// more than 96 bits or the scale is above 28.
    pub fn new(mantissa: i128, scale: u32) -> (out: Option<Amount>)
        ensures
            out is Some <==> (Fixed { mantissa: mantissa as int, scale: scale as int }).representable(),
            out matches Some(a) ==> a@ == (Fixed { mantissa: mantissa as int, scale: scale as int }),
    {
        if scale <= MAX_SCALE && -MAX_MANTISSA <= mantissa && mantissa <= MAX_MANTISSA {
            Some(Amount { mantissa, scale })
        } else {
            None
        }
    }

    /// Zero, the value of a slot that no tick has reached yet.
    pub fn zero() -> (out: Amount)
        ensures
            out@ == (Fixed { mantissa: 0, scale: 0 }),
    {
        Amount { mantissa: 0, scale: 0 }
    }

    /// The whole number `value`.
    pub fn from_u32(value: u32) -> (out: Amount)
        ensures
            out@ == (Fixed { mantissa: value as int, scale: 0 }),
    {
        Amount { mantissa: value as i128, scale: 0 }
    }

    /// The mantissa.
    pub fn mantissa(&self) -> (m: i128)
        ensures
            m == self@.mantissa,
            self@.representable(),
    {
        proof {
            use_type_invariant(self);
        }
        self.mantissa
    }

    /// The number of fractional digits.
    pub fn scale(&self) -> (s: u32)
        ensures
            s == self@.scale,
            self@.representable(),
    {
        proof {
            use_type_invariant(self);
        }
        self.scale
    }

    /// Whether the amount is zero, at any scale.
    pub fn is_zero(&self) -> (zero: bool)
        ensures
            zero == self@.is_zero(),
    {
        self.mantissa == 0
    }

    /// Parses a decimal number from text as `rust_decimal` reads it.
    pub fn parse(text: &str) -> (parsed: Option<Amount>)
        ensures
            optional_fixed(parsed) == parse_of(text@),
            parsed matches Some(a) ==> a@.representable(),
    {
        decimal_from_str(text)
    }

    /// `self - other`, or `None` on overflow.
    pub fn checked_sub(&self, other: &Amount) -> (out: Option<Amount>)
        ensures
            optional_fixed(out) == difference_of(self@, other@),
            out matches Some(a) ==> a@.representable(),
    {
        proof {
            use_type_invariant(self);
            use_type_invariant(other);
        }
        decimal_checked_sub(*self, *other)
    }

    /// `self / other`, or `None` on a zero divisor or overflow.
    pub fn checked_div(&self, other: &Amount) -> (out: Option<Amount>)
        ensures
            optional_fixed(out) == quotient_of(self@, other@),
            out matches Some(a) ==> a@.representable(),
    {
        proof {
            use_type_invariant(self);
            use_type_invariant(other);
        }
        decimal_checked_div(*self, *other)
    }

    /// `self * other`, or `None` on overflow.
    pub fn checked_mul(&self, other: &Amount) -> (out: Option<Amount>)
        ensures
            optional_fixed(out) == product_of(self@, other@),
            out matches Some(a) ==> a@.representable(),
    {
        proof {
            use_type_invariant(self);
            use_type_invariant(other);
        }
        decimal_checked_mul(*self, *other)
    }

    /// Whether `self` is greater than `other` as a number.
    pub fn exceeds(&self, other: &Amount) -> (greater: bool)
        ensures
            greater == self@.greater_than(other@),
    {
        proof {
            use_type_invariant(self);
            use_type_invariant(other);
        }
        decimal_greater(*self, *other)
    }
}

/// Numeric order is strict: no number is greater than itself, and of two
/// numbers at most one is greater than the other.
pub proof fn lemma_greater_than_is_strict(a: Fixed, b: Fixed)
    ensures
        !a.greater_than(a),
        a.greater_than(b) ==> !b.greater_than(a),
{
}

/// Numeric order is transitive.
pub proof fn lemma_greater_than_is_transitive(a: Fixed, b: Fixed, c: Fixed)
    requires
        a.greater_than(b),
        b.greater_than(c),
    ensures
        a.greater_than(c),
{
    let pa = pow(10, a.scale as nat);
    let pb = pow(10, b.scale as nat);
    let pc = pow(10, c.scale as nat);
    lemma_pow_positive(10, a.scale as nat);
    lemma_pow_positive(10, b.scale as nat);
    lemma_pow_positive(10, c.scale as nat);
    assert(a.mantissa * pc > c.mantissa * pa) by (nonlinear_arith)
        requires
            a.mantissa * pb > b.mantissa * pa,
            b.mantissa * pc > c.mantissa * pb,
            pa > 0,
            pb > 0,
            pc > 0,
    {
        assert((a.mantissa * pb) * pc > (b.mantissa * pa) * pc);
        assert((b.mantissa * pc) * pa > (c.mantissa * pb) * pa);
        assert((a.mantissa * pc) * pb > (c.mantissa * pa) * pb);
    }
}

/// Numeric order goes by value, not by digits: a trailing zero, which
/// multiplies the mantissa by ten and adds one to the scale, changes no
/// comparison. So `0.50` exceeds what `0.5` exceeds and nothing else.
pub proof fn lemma_trailing_zero_keeps_order(a: Fixed, b: Fixed)
    requires
        a.scale >= 0,
    ensures
        (Fixed { mantissa: a.mantissa * 10, scale: a.scale + 1 }).greater_than(b) == a.greater_than(
            b,
        ),
        b.greater_than(Fixed { mantissa: a.mantissa * 10, scale: a.scale + 1 }) == b.greater_than(
            a,
        ),
{
    let pa = pow(10, a.scale as nat);
    let pb = pow(10, b.scale as nat);
    let longer = pow(10, (a.scale + 1) as nat);
    assert(longer == 10 * pa) by {
        reveal(pow);
    }
    assert(((a.mantissa * 10) * pb > b.mantissa * (10 * pa)) == (a.mantissa * pb > b.mantissa
        * pa)) by (nonlinear_arith);
    assert((b.mantissa * (10 * pa) > (a.mantissa * 10) * pb) == (b.mantissa * pa > a.mantissa
        * pb)) by (nonlinear_arith);
}

/// Whole numbers are ordered as the integers are.
pub proof fn lemma_whole_numbers_order(m: int, n: int)
    ensures
        (Fixed { mantissa: m, scale: 0 }).greater_than(Fixed { mantissa: n, scale: 0 }) == (m > n),
{
    lemma_pow0(10);
    assert(pow(10, 0int as nat) == 1);
}

/// The sign decides against zero: a number is greater than zero exactly
/// where its mantissa is positive, and zero is greater than it exactly where
/// its mantissa is negative.
pub proof fn lemma_order_against_zero(a: Fixed, zero: Fixed)
    requires
        zero.is_zero(),
    ensures
        a.greater_than(zero) == (a.mantissa > 0),
        zero.greater_than(a) == (a.mantissa < 0),
{
    let pz = pow(10, zero.scale as nat);
    lemma_pow_positive(10, zero.scale as nat);
    assert((a.mantissa * pz > 0) == (a.mantissa > 0)) by (nonlinear_arith)
        requires
            pz > 0,
    ;
    assert((0 > a.mantissa * pz) == (a.mantissa < 0)) by (nonlinear_arith)
        requires
            pz > 0,
    ;
    assert(zero.mantissa * pow(10, a.scale as nat) == 0) by (nonlinear_arith)
        requires
            zero.mantissa == 0,
    ;
}

} // verus!
