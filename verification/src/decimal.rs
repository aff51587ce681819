//! Exact decimal numbers for prices and quantities.
//!
//! A [`Decimal`] is a signed 96-bit mantissa together with a scale between 0
//! and 28: the number it stands for is `mantissa / 10^scale`. Comparison is
//! decided on the mathematical value. Arithmetic is carried out by the
//! `rust_decimal` crate; what it returns is named here by uninterpreted
//! functions of the operands, so that formulas built from these operations
//! can be stated exactly.

use vstd::prelude::*;

verus! {

/// The largest scale a decimal can carry.
pub const MAX_SCALE: u32 = 28;

/// The largest magnitude of a mantissa: `2^96 - 1`.
pub const MAX_MANTISSA: i128 = 79_228_162_514_264_337_593_543_950_335;

/// `10^n`.
pub open spec fn pow10(n: nat) -> int
    decreases n,
{
    if n == 0 {
        1
    } else {
        10 * pow10((n - 1) as nat)
    }
}

/// Powers of ten are positive.
pub proof fn lemma_pow10_positive(n: nat)
    ensures
        pow10(n) > 0,
    decreases n,
{
    if n > 0 {
        lemma_pow10_positive((n - 1) as nat);
    }
}

/// What `rust_decimal` returns for the checked sum of two decimals.
pub uninterp spec fn sum_of(a: Decimal, b: Decimal) -> Option<Decimal>;

/// What `rust_decimal` returns for the checked difference of two decimals.
pub uninterp spec fn difference_of(a: Decimal, b: Decimal) -> Option<Decimal>;

/// What `rust_decimal` returns for the checked product of two decimals.
pub uninterp spec fn product_of(a: Decimal, b: Decimal) -> Option<Decimal>;

/// What `rust_decimal` returns for the checked quotient of two decimals.
pub uninterp spec fn quotient_of(a: Decimal, b: Decimal) -> Option<Decimal>;

/// What `rust_decimal` returns for a decimal raised to a whole exponent.
pub uninterp spec fn power_of(base: Decimal, exponent: u64) -> Option<Decimal>;

/// What `rust_decimal` reads from a piece of text, if it reads a decimal.
pub uninterp spec fn decimal_of_text(text: Seq<char>) -> Option<Decimal>;

/// An exact decimal number: `mantissa / 10^scale`.
///
/// The mantissa always fits 96 bits and a sign, and the scale is at most
/// 28: these are the parts that a `rust_decimal::Decimal` can be made of.
#[derive(Clone, Copy, Debug)]
pub struct Decimal {
    mantissa: i128,
    scale: u32,
}

impl Decimal {
    #[verifier::type_invariant]
    spec fn in_range(self) -> bool {
        &&& -MAX_MANTISSA <= self.mantissa <= MAX_MANTISSA
        &&& self.scale <= MAX_SCALE
    }

    /// The mantissa.
    pub closed spec fn spec_mantissa(&self) -> i128 {
        self.mantissa
    }

    /// The scale: the number of digits behind the decimal point.
    pub closed spec fn spec_scale(&self) -> u32 {
        self.scale
    }

    /// The value in units of `10^-28`: an integer that orders decimals of
    /// any scale by the number they stand for.
    pub open spec fn units(self) -> int {
        self.mantissa() * pow10((MAX_SCALE - self.scale()) as nat)
    }

    /// The decimal stands for zero.
    pub open spec fn is_zero_value(self) -> bool {
        self.units() == 0
    }

    /// The decimal stands for a number above zero.
    pub open spec fn is_positive_value(self) -> bool {
        self.units() > 0
    }

    /// The decimal stands for a number below zero.
    pub open spec fn is_negative_value(self) -> bool {
        self.units() < 0
    }

    /// Two decimals stand for the same number.
    pub open spec fn same_value(self, other: Decimal) -> bool {
        self.units() == other.units()
    }

    /// The decimal with the given mantissa and scale 0.
    pub closed spec fn whole(n: int) -> Decimal {
        Decimal { mantissa: n as i128, scale: 0 }
    }

    /// The decimal with the given mantissa and scale.
    pub closed spec fn of(mantissa: int, scale: nat) -> Decimal {
        Decimal { mantissa: mantissa as i128, scale: scale as u32 }
    }

    /// The parts of a decimal built from a mantissa of at most 96 bits and
    /// a scale of at most 28.
    pub proof fn lemma_parts(mantissa: int, scale: nat)
        requires
            -MAX_MANTISSA <= mantissa <= MAX_MANTISSA,
            scale <= MAX_SCALE,
        ensures
            Decimal::of(mantissa, scale).mantissa() == mantissa,
            Decimal::of(mantissa, scale).scale() == scale,
            Decimal::whole(mantissa) == Decimal::of(mantissa, 0),
    {
    }

    /// The sign of a decimal is the sign of its mantissa.
    pub proof fn lemma_sign(self)
        ensures
            self.is_zero_value() <==> self.mantissa() == 0,
            self.is_positive_value() <==> self.mantissa() > 0,
            self.is_negative_value() <==> self.mantissa() < 0,
    {
        let p = pow10((MAX_SCALE - self.scale()) as nat);
        lemma_pow10_positive((MAX_SCALE - self.scale()) as nat);
        let m = self.mantissa();
        assert(m > 0 ==> m * p > 0) by (nonlinear_arith)
            requires
                p > 0,
        ;
        assert(m < 0 ==> m * p < 0) by (nonlinear_arith)
            requires
                p > 0,
        ;
        assert(m == 0 ==> m * p == 0) by (nonlinear_arith);
    }

    /// Builds a decimal from its parts; `None` iff the mantissa needs more
    /// than 96 bits or the scale exceeds 28.
    pub fn from_parts(mantissa: i128, scale: u32) -> (r: Option<Decimal>)
        ensures
            r is Some <==> (-MAX_MANTISSA <= mantissa <= MAX_MANTISSA && scale <= MAX_SCALE),
            r matches Some(d) ==> d == Decimal::of(mantissa as int, scale as nat),
            r matches Some(d) ==> d.mantissa() == mantissa && d.scale() == scale,
    {
        if -MAX_MANTISSA <= mantissa && mantissa <= MAX_MANTISSA && scale <= MAX_SCALE {
            Some(Decimal { mantissa, scale })
        } else {
            None
        }
    }

    /// Zero, with scale 0.
    pub fn zero() -> (r: Decimal)
        ensures
            r == Decimal::whole(0),
    {
        Decimal { mantissa: 0, scale: 0 }
    }

    /// The whole number `n`, with scale 0.
    pub fn from_u64(n: u64) -> (r: Decimal)
        ensures
            r == Decimal::whole(n as int),
    {
        Decimal { mantissa: n as i128, scale: 0 }
    }

    /// The mantissa.
    #[verifier::when_used_as_spec(spec_mantissa)]
    pub fn mantissa(&self) -> (m: i128)
        ensures
            m == self.mantissa(),
    {
        self.mantissa
    }

    /// The scale: the number of digits behind the decimal point.
    #[verifier::when_used_as_spec(spec_scale)]
    pub fn scale(&self) -> (s: u32)
        ensures
            s == self.scale(),
    {
        self.scale
    }

    /// Whether the decimal stands for zero.
    pub fn is_zero(&self) -> (r: bool)
        ensures
            r == self.is_zero_value(),
    {
        proof {
            self.lemma_sign();
        }
        self.mantissa == 0
    }

    /// Whether the decimal stands for a number above zero.
    pub fn is_positive(&self) -> (r: bool)
        ensures
            r == self.is_positive_value(),
    {
        proof {
            self.lemma_sign();
        }
        self.mantissa > 0
    }

    /// Whether the decimal stands for a number below zero.
    pub fn is_negative(&self) -> (r: bool)
        ensures
            r == self.is_negative_value(),
    {
        proof {
            self.lemma_sign();
        }
        self.mantissa < 0
    }

    /// Whether `self` stands for a smaller number than `other`.
    pub fn lt(&self, other: &Decimal) -> (r: bool)
        ensures
            r == (self.units() < other.units()),
    {
        less_than(*self, *other)
    }

    /// Reads a decimal from text.
    pub fn parse(text: &str) -> (r: Option<Decimal>)
        ensures
            r == decimal_of_text(text@),
    {
        read_decimal(text)
    }

    /// `self + other`, or `None` where the sum cannot be represented.
    /// Adding to zero gives the other operand unchanged.
    pub fn checked_add(self, other: Decimal) -> (r: Option<Decimal>)
        ensures
            r == sum_of(self, other),
            self.is_zero_value() ==> r == Some(other),
    {
        proof {
            self.lemma_sign();
        }
        checked_sum(self, other)
    }

    /// `self - other`, or `None` where the difference cannot be represented.
    pub fn checked_sub(self, other: Decimal) -> (r: Option<Decimal>)
        ensures
            r == difference_of(self, other),
    {
        checked_difference(self, other)
    }

    /// `self * other`, or `None` where the product cannot be represented.
    pub fn checked_mul(self, other: Decimal) -> (r: Option<Decimal>)
        ensures
            r == product_of(self, other),
    {
        checked_product(self, other)
    }

    /// `self / other`, or `None` where the divisor is zero or the quotient
    /// cannot be represented.
    pub fn checked_div(self, other: Decimal) -> (r: Option<Decimal>)
        ensures
            r == quotient_of(self, other),
            other.is_zero_value() ==> r is None,
    {
        proof {
            other.lemma_sign();
        }
        checked_quotient(self, other)
    }

    /// `self` raised to the whole power `exponent`, or `None` where the
    /// power cannot be represented.
    pub fn checked_pow(self, exponent: u64) -> (r: Option<Decimal>)
        ensures
            r == power_of(self, exponent),
    {
        checked_power(self, exponent)
    }
}

impl PartialEq for Decimal {
    /// Two decimals are equal where they stand for the same number.
    fn eq(&self, other: &Decimal) -> (r: bool) {
        !less_than(*self, *other) && !less_than(*other, *self)
    }
}

impl vstd::std_specs::cmp::PartialEqSpecImpl for Decimal {
    open spec fn obeys_eq_spec() -> bool {
        true
    }

    open spec fn eq_spec(&self, other: &Decimal) -> bool {
        self.same_value(*other)
    }
}

/// `rust_decimal`'s `<` on two decimals: it orders by the numbers that the
/// operands stand for, whatever their scales.
#[verifier::external_body]
fn less_than(a: Decimal, b: Decimal) -> (r: bool)
    ensures
        r == (a.units() < b.units()),
{
    let x = rust_decimal::Decimal::from_i128_with_scale(a.mantissa, a.scale);
    let y = rust_decimal::Decimal::from_i128_with_scale(b.mantissa, b.scale);
    x < y
}

/// `rust_decimal::Decimal::checked_add`. Its result is a function of the
/// operands, named [`sum_of`]; where the left operand is zero it hands back
/// the right operand unchanged.
#[verifier::external_body]
fn checked_sum(a: Decimal, b: Decimal) -> (r: Option<Decimal>)
    ensures
        r == sum_of(a, b),
        a.mantissa() == 0 ==> r == Some(b),
{
    let x = rust_decimal::Decimal::from_i128_with_scale(a.mantissa, a.scale);
    let y = rust_decimal::Decimal::from_i128_with_scale(b.mantissa, b.scale);
    match x.checked_add(y) {
        Some(d) => Some(Decimal { mantissa: d.mantissa(), scale: d.scale() }),
        None => None,
    }
}

/// `rust_decimal::Decimal::checked_sub`. Its result is a function of the
/// operands, named [`difference_of`].
#[verifier::external_body]
fn checked_difference(a: Decimal, b: Decimal) -> (r: Option<Decimal>)
    ensures
        r == difference_of(a, b),
{
    let x = rust_decimal::Decimal::from_i128_with_scale(a.mantissa, a.scale);
    let y = rust_decimal::Decimal::from_i128_with_scale(b.mantissa, b.scale);
    match x.checked_sub(y) {
        Some(d) => Some(Decimal { mantissa: d.mantissa(), scale: d.scale() }),
        None => None,
    }
}

/// `rust_decimal::Decimal::checked_mul`. Its result is a function of the
/// operands, named [`product_of`].
#[verifier::external_body]
fn checked_product(a: Decimal, b: Decimal) -> (r: Option<Decimal>)
    ensures
        r == product_of(a, b),
{
    let x = rust_decimal::Decimal::from_i128_with_scale(a.mantissa, a.scale);
    let y = rust_decimal::Decimal::from_i128_with_scale(b.mantissa, b.scale);
    match x.checked_mul(y) {
        Some(d) => Some(Decimal { mantissa: d.mantissa(), scale: d.scale() }),
        None => None,
    }
}

/// `rust_decimal::Decimal::checked_div`. Its result is a function of the
/// operands, named [`quotient_of`]; a zero divisor gives `None`.
#[verifier::external_body]
fn checked_quotient(a: Decimal, b: Decimal) -> (r: Option<Decimal>)
    ensures
        r == quotient_of(a, b),
        b.mantissa() == 0 ==> r is None,
{
    let x = rust_decimal::Decimal::from_i128_with_scale(a.mantissa, a.scale);
    let y = rust_decimal::Decimal::from_i128_with_scale(b.mantissa, b.scale);
    match x.checked_div(y) {
        Some(d) => Some(Decimal { mantissa: d.mantissa(), scale: d.scale() }),
        None => None,
    }
}

/// `rust_decimal::MathematicalOps::checked_powd` with a whole, non-negative
/// exponent. Its result is a function of base and exponent, named
/// [`power_of`].
#[verifier::external_body]
fn checked_power(base: Decimal, exponent: u64) -> (r: Option<Decimal>)
    ensures
        r == power_of(base, exponent),
{
    let x = rust_decimal::Decimal::from_i128_with_scale(base.mantissa, base.scale);
    let e = rust_decimal::Decimal::from(exponent);
    match rust_decimal::MathematicalOps::checked_powd(&x, e) {
        Some(d) => Some(Decimal { mantissa: d.mantissa(), scale: d.scale() }),
        None => None,
    }
}

/// `rust_decimal`'s `FromStr` for decimals. What it reads is a function of
/// the text, named [`decimal_of_text`].
#[verifier::external_body]
fn read_decimal(text: &str) -> (r: Option<Decimal>)
    ensures
        r == decimal_of_text(text@),
{
    match <rust_decimal::Decimal as std::str::FromStr>::from_str(text) {
        Ok(d) => Some(Decimal { mantissa: d.mantissa(), scale: d.scale() }),
        Err(_) => None,
    }
}

} // verus!
