//! `Number` — the OCPI decimal number type: an exact decimal, never a float.
//!
//! A value is held the way `rust_decimal::Decimal` holds one: a signed mantissa of at most 96
//! bits and a scale of at most 28, its value being `mantissa / 10^scale`. Comparison, parsing
//! and formatting are `rust_decimal`'s.

use rust_decimal::Decimal;
use vstd::prelude::*;

use crate::strings::{debug_text, dec_digits, push_debug_str, push_str, zeros};
use crate::types::datetime::{lemma_pow10_add, lemma_pow10_positive, pow10};

verus! {

/// The largest mantissa magnitude a `rust_decimal::Decimal` holds: 2^96 - 1.
pub const MAX_MANTISSA: i128 = 0xFFFF_FFFF_FFFF_FFFF_FFFF_FFFF;

/// The most fractional digits a `rust_decimal::Decimal` holds.
pub const MAX_SCALE: u32 = 28;

#[verifier::external_type_specification]
#[verifier::external_body]
pub struct ExDecimal(Decimal);

/// `Decimal::from_i128_with_scale`, which panics when the scale is above 28 or the mantissa
/// needs more than 96 bits; those inputs are excluded. Nothing is stated of the result, which
/// Verus does not see into.
pub assume_specification[Decimal::from_i128_with_scale](num: i128, scale: u32) -> Decimal
    requires
        scale <= MAX_SCALE,
        -MAX_MANTISSA <= num <= MAX_MANTISSA,
;

/// `Decimal::mantissa`: the signed integer the value is a multiple of `10^-scale` of, which is
/// at most 96 bits wide.
pub assume_specification[Decimal::mantissa](d: &Decimal) -> (r: i128)
    ensures
        -MAX_MANTISSA <= r <= MAX_MANTISSA,
;

/// `Decimal::scale`: the number of fractional digits, which is at most 28.
pub assume_specification[Decimal::scale](d: &Decimal) -> (r: u32)
    ensures
        r <= MAX_SCALE,
;

/// An OCPI `number`: an exact decimal.
///
/// Two numbers are equal when their values are, whatever their scales: `0.25` equals `0.2500`.
#[derive(Clone, Copy, Debug)]
pub struct Number {
    mantissa: i128,
    scale: u32,
}

/// The text `rust_decimal` writes for `mantissa / 10^scale`: the digits of the magnitude, padded
/// with zeros to more than `scale` digits only when there are fractional digits, a `.` before the
/// last `scale` of them, a `0` before a `.` with nothing ahead of it, and a `-` in front of a
/// negative value.
pub open spec fn decimal_text(mantissa: int, scale: nat) -> Seq<char> {
    let magnitude = if mantissa < 0 {
        -mantissa
    } else {
        mantissa
    };
    let raw = if magnitude == 0 {
        Seq::<char>::empty()
    } else {
        dec_digits(magnitude as nat)
    };
    let digits = zeros(scale - raw.len()) + raw;
    let whole = digits.subrange(0, digits.len() - scale);
    let body = if scale == 0 {
        if digits.len() == 0 {
            seq!['0']
        } else {
            digits
        }
    } else {
        (if whole.len() == 0 {
            seq!['0']
        } else {
            whole
        }) + seq!['.'] + digits.subrange(digits.len() - scale, digits.len() as int)
    };
    if mantissa < 0 {
        seq!['-'] + body
    } else {
        body
    }
}

/// Whether `a` is numerically below `b`: compared at a common scale.
pub open spec fn numeric_lt(a: Number, b: Number) -> bool {
    a.spec_mantissa() * pow10(b.spec_scale()) < b.spec_mantissa() * pow10(a.spec_scale())
}

/// Whether `a` and `b` are the same value.
pub open spec fn numeric_eq(a: Number, b: Number) -> bool {
    a.spec_mantissa() * pow10(b.spec_scale()) == b.spec_mantissa() * pow10(a.spec_scale())
}

/// What `Decimal::from_str_exact` makes of `text`: the mantissa and scale of the decimal it
/// reads, or the text of the error it reports.
pub uninterp spec fn decimal_parse_result(text: Seq<char>) -> Result<(int, int), Seq<char>>;

/// Parses a decimal with `rust_decimal`.
///
/// Trusted: `Decimal::from_str_exact`, which fails rather than round a value it cannot hold
/// exactly; the mantissa and scale of its result, which are within `Decimal`'s bounds; the
/// `Display` text of its error. The grammar it accepts is named by [`decimal_parse_result`].
#[verifier::external_body]
fn parse_decimal(text: &str) -> (r: Result<(i128, u32), String>)
    ensures
        match r {
            Ok((m, s)) => decimal_parse_result(text@) == Ok::<(int, int), Seq<char>>((m as int, s as int))
                && -MAX_MANTISSA <= m <= MAX_MANTISSA && s <= MAX_SCALE,
            Err(e) => decimal_parse_result(text@) == Err::<(int, int), Seq<char>>(e@),
        },
{
    match Decimal::from_str_exact(text) {
        Ok(d) => Ok((d.mantissa(), d.scale())),
        Err(e) => Err(e.to_string()),
    }
}

/// Formats a number with `rust_decimal`.
///
/// Trusted: `Decimal`'s `Display`, which writes the digits of the mantissa with a `.` before the
/// last `scale` of them, as [`decimal_text`] states.
#[verifier::external_body]
fn decimal_to_string(n: &Number) -> (s: String)
    ensures
        s@ == decimal_text(n.spec_mantissa(), n.spec_scale()),
{
    Decimal::from_i128_with_scale(n.mantissa, n.scale).to_string()
}

/// Compares two numbers with `rust_decimal`.
///
/// Trusted: `Decimal`'s `<`, which brings both to a common scale and compares the values, as
/// [`numeric_lt`] states.
#[verifier::external_body]
fn decimal_less(a: &Number, b: &Number) -> (r: bool)
    ensures
        r == numeric_lt(*a, *b),
{
    Decimal::from_i128_with_scale(a.mantissa, a.scale) < Decimal::from_i128_with_scale(b.mantissa, b.scale)
}

/// Why a decimal could not be parsed.
#[derive(Clone, Debug, PartialEq, Eq)]
pub struct InvalidNumber(String);

impl InvalidNumber {
    /// What was wrong.
    pub closed spec fn spec_message(&self) -> Seq<char> {
        self.0@
    }

    /// `invalid OCPI number: ` and what was wrong.
    pub fn to_string(&self) -> (s: String)
        ensures
            s@ == "invalid OCPI number: "@ + self.spec_message(),
    {
        let mut s = String::new();
        push_str(&mut s, "invalid OCPI number: ");
        push_str(&mut s, self.0.as_str());
        s
    }
}

impl Number {
    /// The mantissa: the value times `10^scale`.
    pub closed spec fn spec_mantissa(self) -> int {
        self.mantissa as int
    }

    /// The number of fractional digits.
    pub closed spec fn spec_scale(self) -> nat {
        self.scale as nat
    }

    /// Within what a `rust_decimal::Decimal` holds.
    #[verifier::type_invariant]
    closed spec fn wf(self) -> bool {
        -MAX_MANTISSA <= self.mantissa <= MAX_MANTISSA && self.scale <= MAX_SCALE
    }

    /// Zero.
    pub fn zero() -> (n: Self)
        ensures
            n == Number::from_integer(0),
            n.spec_mantissa() == 0,
            n.spec_scale() == 0,
    {
        Number { mantissa: 0, scale: 0 }
    }

    /// One.
    pub fn one() -> (n: Self)
        ensures
            n == Number::from_integer(1),
            n.spec_mantissa() == 1,
            n.spec_scale() == 0,
    {
        Number { mantissa: 1, scale: 0 }
    }

    /// Wraps a `Decimal`, keeping its mantissa and scale.
    pub fn new(value: Decimal) -> (n: Self) {
        Number { mantissa: value.mantissa(), scale: value.scale() }
    }

    /// The `Decimal` with this mantissa and scale.
    pub fn get(self) -> Decimal {
        proof {
            use_type_invariant(&self);
        }
        Decimal::from_i128_with_scale(self.mantissa, self.scale)
    }

    /// The number of digits after the decimal point.
    pub fn scale(self) -> (r: u32)
        ensures
            r == self.spec_scale(),
    {
        self.scale
    }

    /// Whether the value is zero.
    pub fn is_zero(self) -> (r: bool)
        ensures
            r == (self.spec_mantissa() == 0),
    {
        self.mantissa == 0
    }

    /// Whether the value is strictly negative.
    pub fn is_negative(self) -> (r: bool)
        ensures
            r == (self.spec_mantissa() < 0),
    {
        self.mantissa < 0
    }

    /// Whether this value is numerically below `other`.
    pub fn is_less_than(&self, other: &Number) -> (r: bool)
        ensures
            r == numeric_lt(*self, *other),
    {
        decimal_less(self, other)
    }

    /// Parses a decimal exactly: `rust_decimal`'s reading of the text, or an error quoting the
    /// text and what `rust_decimal` reported.
    pub fn parse(s: &str) -> (res: Result<Self, InvalidNumber>)
        ensures
            match decimal_parse_result(s@) {
                Ok((m, sc)) => res matches Ok(n) && n.spec_mantissa() == m && n.spec_scale() == sc,
                Err(e) => res matches Err(err) && err.spec_message() == debug_text(s@) + ": "@ + e,
            },
    {
        match parse_decimal(s) {
            Ok((m, sc)) => Ok(Number { mantissa: m, scale: sc }),
            Err(e) => {
                let mut msg = String::new();
                push_debug_str(&mut msg, s);
                push_str(&mut msg, ": ");
                push_str(&mut msg, e.as_str());
                Err(InvalidNumber(msg))
            },
        }
    }

    /// The value as `rust_decimal` writes it: `0.2500` keeps its four fractional digits.
    pub fn to_string(&self) -> (s: String)
        ensures
            s@ == decimal_text(self.spec_mantissa(), self.spec_scale()),
    {
        decimal_to_string(self)
    }
}

impl PartialEq for Number {
    fn eq(&self, other: &Self) -> (r: bool) {
        !decimal_less(self, other) && !decimal_less(other, self)
    }
}

impl vstd::std_specs::cmp::PartialEqSpecImpl for Number {
    open spec fn obeys_eq_spec() -> bool {
        true
    }

    open spec fn eq_spec(&self, other: &Self) -> bool {
        numeric_eq(*self, *other)
    }
}

impl Eq for Number {
}

impl Default for Number {
    fn default() -> (n: Self)
        ensures
            n.spec_mantissa() == 0,
            n.spec_scale() == 0,
    {
        Number::zero()
    }
}

impl core::str::FromStr for Number {
    type Err = InvalidNumber;

    fn from_str(s: &str) -> (res: Result<Self, Self::Err>)
        ensures
            match decimal_parse_result(s@) {
                Ok((m, sc)) => res matches Ok(n) && n.spec_mantissa() == m && n.spec_scale() == sc,
                Err(e) => res matches Err(err) && err.spec_message() == debug_text(s@) + ": "@ + e,
            },
    {
        Self::parse(s)
    }
}

impl Number {
    /// The number with mantissa `value` and scale 0.
    pub closed spec fn from_integer(value: int) -> Number {
        Number { mantissa: value as i128, scale: 0 }
    }

    /// An integer within range is that mantissa at scale zero.
    pub broadcast proof fn lemma_integer(value: int)
        requires
            -MAX_MANTISSA <= value <= MAX_MANTISSA,
        ensures
            #[trigger] Number::from_integer(value).spec_mantissa() == value,
            Number::from_integer(value).spec_scale() == 0,
    {
    }

    /// The number with mantissa `mantissa` and scale `scale`.
    pub closed spec fn spec_with(mantissa: int, scale: nat) -> Number {
        Number { mantissa: mantissa as i128, scale: scale as u32 }
    }

    /// A number made from a mantissa and a scale within range has that mantissa and scale.
    pub broadcast proof fn lemma_with(mantissa: int, scale: nat)
        requires
            -MAX_MANTISSA <= mantissa <= MAX_MANTISSA,
            scale <= u32::MAX,
        ensures
            #[trigger] Number::spec_with(mantissa, scale).spec_mantissa() == mantissa,
            Number::spec_with(mantissa, scale).spec_scale() == scale,
    {
    }
}

impl From<i8> for Number {
    fn from(value: i8) -> (n: Self)
        ensures
            n.spec_mantissa() == value,
            n.spec_scale() == 0,
    {
        Number { mantissa: value as i128, scale: 0 }
    }
}

impl vstd::std_specs::convert::FromSpecImpl<i8> for Number {
    open spec fn obeys_from_spec() -> bool {
        true
    }

    open spec fn from_spec(v: i8) -> Self {
        Number::from_integer(v as int)
    }
}

impl From<i16> for Number {
    fn from(value: i16) -> (n: Self)
        ensures
            n.spec_mantissa() == value,
            n.spec_scale() == 0,
    {
        Number { mantissa: value as i128, scale: 0 }
    }
}

impl vstd::std_specs::convert::FromSpecImpl<i16> for Number {
    open spec fn obeys_from_spec() -> bool {
        true
    }

    open spec fn from_spec(v: i16) -> Self {
        Number::from_integer(v as int)
    }
}

impl From<i32> for Number {
    fn from(value: i32) -> (n: Self)
        ensures
            n.spec_mantissa() == value,
            n.spec_scale() == 0,
    {
        Number { mantissa: value as i128, scale: 0 }
    }
}

impl vstd::std_specs::convert::FromSpecImpl<i32> for Number {
    open spec fn obeys_from_spec() -> bool {
        true
    }

    open spec fn from_spec(v: i32) -> Self {
        Number::from_integer(v as int)
    }
}

impl From<i64> for Number {
    fn from(value: i64) -> (n: Self)
        ensures
            n.spec_mantissa() == value,
            n.spec_scale() == 0,
    {
        Number { mantissa: value as i128, scale: 0 }
    }
}

impl vstd::std_specs::convert::FromSpecImpl<i64> for Number {
    open spec fn obeys_from_spec() -> bool {
        true
    }

    open spec fn from_spec(v: i64) -> Self {
        Number::from_integer(v as int)
    }
}

impl From<u8> for Number {
    fn from(value: u8) -> (n: Self)
        ensures
            n.spec_mantissa() == value,
            n.spec_scale() == 0,
    {
        Number { mantissa: value as i128, scale: 0 }
    }
}

impl vstd::std_specs::convert::FromSpecImpl<u8> for Number {
    open spec fn obeys_from_spec() -> bool {
        true
    }

    open spec fn from_spec(v: u8) -> Self {
        Number::from_integer(v as int)
    }
}

impl From<u16> for Number {
    fn from(value: u16) -> (n: Self)
        ensures
            n.spec_mantissa() == value,
            n.spec_scale() == 0,
    {
        Number { mantissa: value as i128, scale: 0 }
    }
}

impl vstd::std_specs::convert::FromSpecImpl<u16> for Number {
    open spec fn obeys_from_spec() -> bool {
        true
    }

    open spec fn from_spec(v: u16) -> Self {
        Number::from_integer(v as int)
    }
}

impl From<u32> for Number {
    fn from(value: u32) -> (n: Self)
        ensures
            n.spec_mantissa() == value,
            n.spec_scale() == 0,
    {
        Number { mantissa: value as i128, scale: 0 }
    }
}

impl vstd::std_specs::convert::FromSpecImpl<u32> for Number {
    open spec fn obeys_from_spec() -> bool {
        true
    }

    open spec fn from_spec(v: u32) -> Self {
        Number::from_integer(v as int)
    }
}

impl From<u64> for Number {
    fn from(value: u64) -> (n: Self)
        ensures
            n.spec_mantissa() == value,
            n.spec_scale() == 0,
    {
        Number { mantissa: value as i128, scale: 0 }
    }
}

impl vstd::std_specs::convert::FromSpecImpl<u64> for Number {
    open spec fn obeys_from_spec() -> bool {
        true
    }

    open spec fn from_spec(v: u64) -> Self {
        Number::from_integer(v as int)
    }
}


/// How a value that lies between two representable ones is rounded: the strategies of
/// `rust_decimal::RoundingStrategy`.
#[derive(Clone, Copy, Debug, PartialEq, Eq, Structural)]
pub enum RoundingStrategy {
    /// Halfway rounds to the nearest even number: 6.5 to 6, 7.5 to 8.
    MidpointNearestEven,
    /// Halfway rounds away from zero: 6.5 to 7, -6.5 to -7.
    MidpointAwayFromZero,
    /// Halfway rounds toward zero: 6.5 to 6, -6.5 to -6.
    MidpointTowardZero,
    /// Always toward zero: 6.8 to 6, -6.8 to -6.
    ToZero,
    /// Always away from zero: 6.8 to 7, -6.8 to -7.
    AwayFromZero,
    /// Always toward negative infinity: 6.8 to 6, -6.8 to -7.
    ToNegativeInfinity,
    /// Always toward positive infinity: 6.8 to 7, -6.8 to -6.
    ToPositiveInfinity,
}

/// `n`'s mantissa brought to `scale` fractional digits, `scale` being no fewer than `n`'s own.
pub open spec fn aligned(n: Number, scale: nat) -> int {
    n.spec_mantissa() * pow10((scale - n.spec_scale()) as nat)
}

/// The finer of the two scales.
pub open spec fn common_scale(a: Number, b: Number) -> nat {
    if a.spec_scale() >= b.spec_scale() {
        a.spec_scale()
    } else {
        b.spec_scale()
    }
}

/// Whether `a` and `b`, brought to their common scale, and their sum (their difference where
/// `subtract`) all fit in the 96 bits of a `Decimal`'s mantissa: then nothing is rounded away.
pub open spec fn fits_exactly(a: Number, b: Number, subtract: bool) -> bool {
    let s = common_scale(a, b);
    let x = aligned(a, s);
    let y = if subtract {
        -aligned(b, s)
    } else {
        aligned(b, s)
    };
    &&& -MAX_MANTISSA <= x <= MAX_MANTISSA
    &&& -MAX_MANTISSA <= y <= MAX_MANTISSA
    &&& -MAX_MANTISSA <= x + y <= MAX_MANTISSA
}

/// What `Decimal::checked_add` returns for `a + b` where both are non-zero and the exact sum
/// does not fit at their common scale: the sum rounded to fewer fractional digits, or `None`
/// when even that overflows.
pub uninterp spec fn decimal_rescaled_sum(a: Number, b: Number) -> Option<Number>;

/// What `Decimal::checked_sub` returns for `a - b` where both are non-zero and the exact
/// difference does not fit at their common scale.
pub uninterp spec fn decimal_rescaled_difference(a: Number, b: Number) -> Option<Number>;

/// What `Decimal::checked_add` returns for `a + b`: the other operand where one of them is zero,
/// the exact sum at the common scale where it fits, and otherwise [`decimal_rescaled_sum`].
#[verifier::opaque]
pub open spec fn decimal_checked_sum(a: Number, b: Number) -> Option<Number> {
    if a.spec_mantissa() == 0 {
        Some(b)
    } else if b.spec_mantissa() == 0 {
        Some(a)
    } else if fits_exactly(a, b, false) {
        let s = common_scale(a, b);
        Some(Number::spec_with(aligned(a, s) + aligned(b, s), s))
    } else {
        decimal_rescaled_sum(a, b)
    }
}

/// What `Decimal::checked_sub` returns for `a - b`: `b` negated where `a` is zero, `a` where `b`
/// is zero, the exact difference at the common scale where it fits, and otherwise
/// [`decimal_rescaled_difference`].
#[verifier::opaque]
pub open spec fn decimal_checked_difference(a: Number, b: Number) -> Option<Number> {
    if a.spec_mantissa() == 0 {
        Some(b.spec_negated())
    } else if b.spec_mantissa() == 0 {
        Some(a)
    } else if fits_exactly(a, b, true) {
        let s = common_scale(a, b);
        Some(Number::spec_with(aligned(a, s) - aligned(b, s), s))
    } else {
        decimal_rescaled_difference(a, b)
    }
}

/// What `Decimal::checked_mul` returns for `a * b`: `None` when the product overflows.
pub uninterp spec fn decimal_checked_product(a: Number, b: Number) -> Option<Number>;

/// The product of `a` and `b` where `rust_decimal` computes it without rounding: zero where
/// either is zero, and otherwise the product of the mantissas at the sum of the scales, where
/// that product fits in 96 bits and that sum is at most 28.
pub open spec fn exact_product(a: Number, b: Number) -> Option<Number> {
    if a.spec_mantissa() == 0 || b.spec_mantissa() == 0 {
        Some(Number::spec_with(0, 0))
    } else if -MAX_MANTISSA <= a.spec_mantissa() * b.spec_mantissa() <= MAX_MANTISSA && a.spec_scale()
        + b.spec_scale() <= MAX_SCALE {
        Some(Number::spec_with(a.spec_mantissa() * b.spec_mantissa(), (a.spec_scale() + b.spec_scale()) as nat))
    } else {
        None
    }
}

/// What `Decimal::checked_div` returns for `a / b`: `None` when `b` is zero or the quotient
/// overflows.
pub uninterp spec fn decimal_checked_quotient(a: Number, b: Number) -> Option<Number>;

/// What `Decimal::round_dp_with_strategy` returns for `n` rounded to `dp` places.
pub uninterp spec fn decimal_rounded(n: Number, dp: u32, strategy: RoundingStrategy) -> Number;

/// The smallest integer at or above `mantissa / 10^scale`.
pub open spec fn ceiling(mantissa: int, scale: nat) -> int {
    let p: int = pow10(scale) as int;
    if mantissa % p == 0 {
        mantissa / p
    } else {
        mantissa / p + 1
    }
}

/// Adds with `rust_decimal`.
///
/// Trusted: `Decimal::checked_add`, as [`decimal_checked_sum`] states it. Its source returns the
/// other operand unchanged when one of them is zero, and adds two non-zero values exactly, at
/// the finer of their scales, whenever both and the sum fit in 96 bits at that scale; what it
/// does otherwise (reduce the scale, rounding, or report an overflow) is named, not stated.
#[verifier::external_body]
fn decimal_checked_add(a: &Number, b: &Number) -> (r: Option<Number>)
    ensures
        r == decimal_checked_sum(*a, *b),
        !(a.spec_mantissa() == 0 || b.spec_mantissa() == 0 || fits_exactly(*a, *b, false)) ==> r
            == decimal_rescaled_sum(*a, *b),
        a.spec_mantissa() == 0 ==> r == Some(*b),
        a.spec_mantissa() != 0 && b.spec_mantissa() == 0 ==> r == Some(*a),
{
    let x = Decimal::from_i128_with_scale(a.mantissa, a.scale);
    match x.checked_add(Decimal::from_i128_with_scale(b.mantissa, b.scale)) {
        Some(d) => Some(Number { mantissa: d.mantissa(), scale: d.scale() }),
        None => None,
    }
}

/// Subtracts with `rust_decimal`.
///
/// Trusted: `Decimal::checked_sub`, as [`decimal_checked_difference`] states it. Its source
/// returns the negated right operand when the left one is zero, the left operand unchanged when
/// the right one is zero, and subtracts two non-zero values exactly, at the finer of their
/// scales, whenever both and the difference fit in 96 bits at that scale; what it does otherwise
/// is named, not stated.
#[verifier::external_body]
fn decimal_checked_sub(a: &Number, b: &Number) -> (r: Option<Number>)
    ensures
        r == decimal_checked_difference(*a, *b),
        !(a.spec_mantissa() == 0 || b.spec_mantissa() == 0 || fits_exactly(*a, *b, true)) ==> r
            == decimal_rescaled_difference(*a, *b),
        a.spec_mantissa() != 0 && b.spec_mantissa() == 0 ==> r == Some(*a),
{
    let x = Decimal::from_i128_with_scale(a.mantissa, a.scale);
    match x.checked_sub(Decimal::from_i128_with_scale(b.mantissa, b.scale)) {
        Some(d) => Some(Number { mantissa: d.mantissa(), scale: d.scale() }),
        None => None,
    }
}

/// Multiplies with `rust_decimal`.
///
/// Trusted: `Decimal::checked_mul`, named by [`decimal_checked_product`]. Its source answers zero
/// (at scale 0) when either operand is zero, and multiplies two non-zero values exactly, the
/// scales adding up, whenever the product of the mantissas fits in 96 bits and the sum of the
/// scales is at most 28; what it does otherwise (round to fewer digits, or report an overflow)
/// is named, not stated.
#[verifier::external_body]
fn decimal_checked_mul(a: &Number, b: &Number) -> (r: Option<Number>)
    ensures
        r == decimal_checked_product(*a, *b),
        exact_product(*a, *b) matches Some(p) ==> r == Some(p),
{
    let x = Decimal::from_i128_with_scale(a.mantissa, a.scale);
    match x.checked_mul(Decimal::from_i128_with_scale(b.mantissa, b.scale)) {
        Some(d) => Some(Number { mantissa: d.mantissa(), scale: d.scale() }),
        None => None,
    }
}

/// Divides with `rust_decimal`.
///
/// Trusted: `Decimal::checked_div`, named by [`decimal_checked_quotient`]; its source answers
/// `None` for a zero divisor.
#[verifier::external_body]
fn decimal_checked_div(a: &Number, b: &Number) -> (r: Option<Number>)
    ensures
        r == decimal_checked_quotient(*a, *b),
        b.spec_mantissa() == 0 ==> r is None,
{
    let x = Decimal::from_i128_with_scale(a.mantissa, a.scale);
    match x.checked_div(Decimal::from_i128_with_scale(b.mantissa, b.scale)) {
        Some(d) => Some(Number { mantissa: d.mantissa(), scale: d.scale() }),
        None => None,
    }
}

/// Rounds with `rust_decimal`.
///
/// Trusted: `Decimal::round_dp_with_strategy`, named by [`decimal_rounded`]; its source returns
/// a value that already has at most `dp` fractional digits unchanged.
#[verifier::external_body]
fn decimal_round_dp(n: &Number, dp: u32, strategy: RoundingStrategy) -> (r: Number)
    ensures
        r == decimal_rounded(*n, dp, strategy),
        n.spec_scale() <= dp ==> r == *n,
{
    let s = match strategy {
        RoundingStrategy::MidpointNearestEven => rust_decimal::RoundingStrategy::MidpointNearestEven,
        RoundingStrategy::MidpointAwayFromZero => rust_decimal::RoundingStrategy::MidpointAwayFromZero,
        RoundingStrategy::MidpointTowardZero => rust_decimal::RoundingStrategy::MidpointTowardZero,
        RoundingStrategy::ToZero => rust_decimal::RoundingStrategy::ToZero,
        RoundingStrategy::AwayFromZero => rust_decimal::RoundingStrategy::AwayFromZero,
        RoundingStrategy::ToNegativeInfinity => rust_decimal::RoundingStrategy::ToNegativeInfinity,
        RoundingStrategy::ToPositiveInfinity => rust_decimal::RoundingStrategy::ToPositiveInfinity,
    };
    let d = Decimal::from_i128_with_scale(n.mantissa, n.scale).round_dp_with_strategy(dp, s);
    Number { mantissa: d.mantissa(), scale: d.scale() }
}

/// Rounds up to an integer with `rust_decimal`.
///
/// Trusted: `Decimal::ceil`, the smallest integer at or above the value; its source gives the
/// result no fractional digits.
#[verifier::external_body]
fn decimal_ceil(n: &Number) -> (r: Number)
    ensures
        r.spec_mantissa() == ceiling(n.spec_mantissa(), n.spec_scale()),
        r.spec_scale() == 0,
{
    let d = Decimal::from_i128_with_scale(n.mantissa, n.scale).ceil();
    Number { mantissa: d.mantissa(), scale: d.scale() }
}

/// A value brought to a finer scale keeps its magnitude bound: the mantissa at its own scale is
/// no larger than at the finer one.
proof fn lemma_aligned_bounds(n: Number, s: nat)
    requires
        s >= n.spec_scale(),
        -MAX_MANTISSA <= aligned(n, s) <= MAX_MANTISSA,
    ensures
        -MAX_MANTISSA <= n.spec_mantissa() <= MAX_MANTISSA,
{
    let k = (s - n.spec_scale()) as nat;
    lemma_pow10_positive(k);
    let p = pow10(k) as int;
    let m = n.spec_mantissa();
    assert(m * p >= m || m < 0) by (nonlinear_arith)
        requires
            p >= 1,
    ;
    assert(m * p <= m || m >= 0) by (nonlinear_arith)
        requires
            p >= 1,
    ;
}

/// `a` brought to its own scale is its mantissa.
proof fn lemma_aligned_own(n: Number)
    ensures
        aligned(n, n.spec_scale()) == n.spec_mantissa(),
{
    assert((n.spec_scale() - n.spec_scale()) as nat == 0nat);
    assert(pow10(0) == 1);
    assert(n.spec_mantissa() * 1 == n.spec_mantissa());
}

/// Adding zero to a number gives the number.
pub proof fn lemma_zero_plus(n: Number)
    ensures
        decimal_checked_sum(Number::from_integer(0), n) == Some(n),
{
    reveal(decimal_checked_sum);
    Number::lemma_integer(0);
}

/// Zeros add up to zero.
pub proof fn lemma_zeros_total(values: Seq<Number>, k: int)
    requires
        0 <= k <= values.len(),
        forall|i: int| 0 <= i < values.len() ==> #[trigger] values[i] == Number::from_integer(0),
    ensures
        checked_total_prefix(values, k) == Some(Number::from_integer(0)),
    decreases k,
{
    if k > 0 {
        lemma_zeros_total(values, k - 1);
        lemma_zero_plus(values[k - 1]);
    }
}

/// Subtracting `r` from `o` and adding `r` back gives `o`'s value again, when `rust_decimal`
/// rounds away nothing in either step: both fit in 96 bits at their common scales.
pub proof fn lemma_difference_added_back(o: Number, r: Number)
    requires
        decimal_checked_difference(o, r) is Some,
        fits_exactly(o, r, true),
        fits_exactly(r, decimal_checked_difference(o, r)->Some_0, false),
    ensures
        decimal_checked_sum(r, decimal_checked_difference(o, r)->Some_0) matches Some(t) && numeric_eq(t, o),
{
    reveal(decimal_checked_difference);
    reveal(decimal_checked_sum);
    let rest = decimal_checked_difference(o, r)->Some_0;
    let s1 = common_scale(o, r);
    lemma_aligned_bounds(o, s1);
    lemma_aligned_bounds(r, s1);
    if o.spec_mantissa() == 0 {
        r.lemma_negated();
        assert(rest == r.spec_negated());
        let t = if r.spec_mantissa() != 0 {
            assert(common_scale(r, rest) == r.spec_scale());
            lemma_aligned_own(r);
            lemma_aligned_own(rest);
            Number::lemma_with(0, r.spec_scale());
            Number::spec_with(aligned(r, r.spec_scale()) + aligned(rest, r.spec_scale()), r.spec_scale())
        } else {
            rest
        };
        assert(decimal_checked_sum(r, rest) == Some(t));
        assert(t.spec_mantissa() == 0);
        assert(numeric_eq(t, o)) by (nonlinear_arith)
            requires
                t.spec_mantissa() == 0,
                o.spec_mantissa() == 0,
        ;
    } else if r.spec_mantissa() == 0 {
        assert(rest == o);
        assert(numeric_eq(o, o));
    } else {
        let so = o.spec_scale();
        let sr = r.spec_scale();
        let ao = aligned(o, s1);
        let ar = aligned(r, s1);
        Number::lemma_with(ao - ar, s1);
        assert(rest.spec_mantissa() == ao - ar && rest.spec_scale() == s1);
        lemma_pow10_add((s1 - so) as nat, so);
        lemma_pow10_add((s1 - sr) as nat, sr);
        let po = pow10((s1 - so) as nat) as int;
        let pr = pow10((s1 - sr) as nat) as int;
        assert(pow10(s1) == po * pow10(so));
        assert(pow10(s1) == pr * pow10(sr));
        if ao - ar == 0 {
            // r and o have the same value.
            let om = o.spec_mantissa();
            let rm = r.spec_mantissa();
            let qo = pow10(so) as int;
            let qr = pow10(sr) as int;
            lemma_pow10_positive(so);
            lemma_pow10_positive(sr);
            lemma_pow10_positive((s1 - so) as nat);
            lemma_pow10_positive((s1 - sr) as nat);
            assert(rm * pr == om * po);
            assert(rm * qo == om * qr) by (nonlinear_arith)
                requires
                    rm * pr == om * po,
                    po * qo == pr * qr,
                    po >= 1,
                    pr >= 1,
                    qo >= 1,
                    qr >= 1,
            {
                assert((rm * qo) * (po * pr) == (rm * pr) * (po * qo));
                assert((om * qr) * (po * pr) == (om * po) * (pr * qr));
            }
            assert(decimal_checked_sum(r, rest) == Some(r));
            assert(numeric_eq(r, o));
        } else {
            assert(common_scale(r, rest) == s1);
            lemma_aligned_own(rest);
            Number::lemma_with(ao, s1);
            let t = Number::spec_with(ar + (ao - ar), s1);
            assert(t.spec_mantissa() == ao);
            let om = o.spec_mantissa();
            let qo = pow10(so) as int;
            assert(ao * qo == om * (po * qo)) by (nonlinear_arith)
                requires
                    ao == om * po,
            ;
            assert(decimal_checked_sum(r, rest) == Some(t));
            assert(numeric_eq(t, o));
        }
    }
}

impl Number {
    /// `self + other`, or `None` when the sum overflows.
    pub fn checked_add(self, other: Number) -> (r: Option<Number>)
        ensures
            r == decimal_checked_sum(self, other),
    {
        decimal_checked_add(&self, &other)
    }

    /// `self - other`, or `None` when the difference overflows.
    pub fn checked_sub(self, other: Number) -> (r: Option<Number>)
        ensures
            r == decimal_checked_difference(self, other),
    {
        decimal_checked_sub(&self, &other)
    }

    /// `self * other`, or `None` when the product overflows.
    pub fn checked_mul(self, other: Number) -> (r: Option<Number>)
        ensures
            r == decimal_checked_product(self, other),
            exact_product(self, other) matches Some(p) ==> r == Some(p),
    {
        decimal_checked_mul(&self, &other)
    }

    /// `self / other`, or `None` when `other` is zero or the quotient overflows.
    pub fn checked_div(self, other: Number) -> (r: Option<Number>)
        ensures
            r == decimal_checked_quotient(self, other),
            other.spec_mantissa() == 0 ==> r is None,
    {
        decimal_checked_div(&self, &other)
    }

    /// Rounds to `dp` decimal places, half away from zero.
    pub fn round_dp(self, dp: u32) -> (r: Number)
        ensures
            r == decimal_rounded(self, dp, RoundingStrategy::MidpointAwayFromZero),
            self.spec_scale() <= dp ==> r == self,
    {
        decimal_round_dp(&self, dp, RoundingStrategy::MidpointAwayFromZero)
    }

    /// Rounds to `dp` decimal places with `strategy`.
    pub fn round_dp_with_strategy(self, dp: u32, strategy: RoundingStrategy) -> (r: Number)
        ensures
            r == decimal_rounded(self, dp, strategy),
            self.spec_scale() <= dp ==> r == self,
    {
        decimal_round_dp(&self, dp, strategy)
    }

    /// The smallest integer at or above this value, with no fractional digits.
    pub closed spec fn spec_ceil(self) -> Number {
        Number { mantissa: ceiling(self.mantissa as int, self.scale as nat) as i128, scale: 0 }
    }

    /// The ceiling's mantissa is the smallest integer at or above the value, at scale zero.
    pub proof fn lemma_ceil(self)
        ensures
            self.spec_ceil().spec_mantissa() == ceiling(self.spec_mantissa(), self.spec_scale() as nat),
            self.spec_ceil().spec_scale() == 0,
    {
        let m = self.mantissa as int;
        let s = self.scale as nat;
        lemma_pow10_positive(s);
        let p = pow10(s) as int;
        vstd::arithmetic::div_mod::lemma_fundamental_div_mod(m, p);
        assert(0 <= m % p < p);
        if p == 1 {
            assert(m % p == 0 && m / p == m) by (nonlinear_arith)
                requires
                    p == 1,
                    m == p * (m / p) + (m % p),
                    0 <= m % p < p,
            ;
        } else {
            assert(p >= 2);
            assert(m >= 0 ==> 0 <= m / p <= m / 2) by (nonlinear_arith)
                requires
                    p >= 2,
                    m == p * (m / p) + (m % p),
                    0 <= m % p < p,
            ;
            assert(m < 0 ==> m / 2 - 1 <= m / p < 0) by (nonlinear_arith)
                requires
                    p >= 2,
                    m == p * (m / p) + (m % p),
                    0 <= m % p < p,
            ;
        }
    }

    /// The smallest integer at or above this value.
    pub fn ceil(self) -> (r: Number)
        ensures
            r == self.spec_ceil(),
            r.spec_mantissa() == ceiling(self.spec_mantissa(), self.spec_scale()),
            r.spec_scale() == 0,
    {
        decimal_ceil(&self)
    }
}

impl core::ops::Add for Number {
    type Output = Number;

    fn add(self, rhs: Number) -> (r: Number) {
        decimal_checked_add(&self, &rhs).unwrap()
    }
}

impl vstd::std_specs::ops::AddSpecImpl for Number {
    open spec fn obeys_add_spec() -> bool {
        true
    }

    open spec fn add_req(self, rhs: Number) -> bool {
        decimal_checked_sum(self, rhs) is Some
    }

    open spec fn add_spec(self, rhs: Number) -> Number {
        decimal_checked_sum(self, rhs)->Some_0
    }
}

impl core::ops::Sub for Number {
    type Output = Number;

    fn sub(self, rhs: Number) -> (r: Number) {
        decimal_checked_sub(&self, &rhs).unwrap()
    }
}

impl vstd::std_specs::ops::SubSpecImpl for Number {
    open spec fn obeys_sub_spec() -> bool {
        true
    }

    open spec fn sub_req(self, rhs: Number) -> bool {
        decimal_checked_difference(self, rhs) is Some
    }

    open spec fn sub_spec(self, rhs: Number) -> Number {
        decimal_checked_difference(self, rhs)->Some_0
    }
}

impl core::ops::Mul for Number {
    type Output = Number;

    fn mul(self, rhs: Number) -> (r: Number) {
        decimal_checked_mul(&self, &rhs).unwrap()
    }
}

impl vstd::std_specs::ops::MulSpecImpl for Number {
    open spec fn obeys_mul_spec() -> bool {
        true
    }

    open spec fn mul_req(self, rhs: Number) -> bool {
        decimal_checked_product(self, rhs) is Some
    }

    open spec fn mul_spec(self, rhs: Number) -> Number {
        decimal_checked_product(self, rhs)->Some_0
    }
}

impl core::ops::Div for Number {
    type Output = Number;

    fn div(self, rhs: Number) -> (r: Number) {
        decimal_checked_div(&self, &rhs).unwrap()
    }
}

impl vstd::std_specs::ops::DivSpecImpl for Number {
    open spec fn obeys_div_spec() -> bool {
        true
    }

    open spec fn div_req(self, rhs: Number) -> bool {
        decimal_checked_quotient(self, rhs) is Some
    }

    open spec fn div_spec(self, rhs: Number) -> Number {
        decimal_checked_quotient(self, rhs)->Some_0
    }
}

impl Number {
    /// The value with its sign flipped.
    pub closed spec fn spec_negated(self) -> Number {
        Number { mantissa: (-self.mantissa) as i128, scale: self.scale }
    }

    /// Negation flips the mantissa's sign and keeps the scale.
    pub broadcast proof fn lemma_negated(self)
        requires
            -MAX_MANTISSA <= self.spec_mantissa() <= MAX_MANTISSA,
        ensures
            #[trigger] self.spec_negated().spec_mantissa() == -self.spec_mantissa(),
            self.spec_negated().spec_scale() == self.spec_scale(),
    {
    }
}

impl core::ops::Neg for Number {
    type Output = Number;

    fn neg(self) -> (r: Number) {
        proof {
            use_type_invariant(&self);
        }
        Number { mantissa: -self.mantissa, scale: self.scale }
    }
}

impl vstd::std_specs::ops::NegSpecImpl for Number {
    open spec fn obeys_neg_spec() -> bool {
        true
    }

    open spec fn neg_req(self) -> bool {
        true
    }

    open spec fn neg_spec(self) -> Number {
        self.spec_negated()
    }
}

/// The sum of the first `n` of `values`, added left to right from zero with
/// `Decimal::checked_add`: `None` once an addition overflows.
pub open spec fn checked_total_prefix(values: Seq<Number>, n: int) -> Option<Number>
    decreases n,
{
    if n <= 0 {
        Some(Number::from_integer(0))
    } else {
        match checked_total_prefix(values, n - 1) {
            Some(acc) => decimal_checked_sum(acc, values[n - 1]),
            None => None,
        }
    }
}

/// The sum of `values`, added left to right from zero: `None` once an addition overflows.
pub open spec fn checked_total(values: Seq<Number>) -> Option<Number> {
    checked_total_prefix(values, values.len() as int)
}

impl Number {
    /// The value without its sign: the same scale, the mantissa's magnitude.
    pub closed spec fn spec_abs(self) -> Number {
        Number {
            mantissa: if self.mantissa < 0 {
                (-self.mantissa) as i128
            } else {
                self.mantissa
            },
            scale: self.scale,
        }
    }

    /// The value without its sign, as `Decimal::abs` gives it: the same scale, the mantissa's
    /// magnitude.
    pub fn abs(self) -> (r: Number)
        ensures
            r == self.spec_abs(),
            r.spec_mantissa() == if self.spec_mantissa() < 0 {
                -self.spec_mantissa()
            } else {
                self.spec_mantissa()
            },
            r.spec_scale() == self.spec_scale(),
    {
        proof {
            use_type_invariant(&self);
        }
        Number {
            mantissa: if self.mantissa < 0 {
                -self.mantissa
            } else {
                self.mantissa
            },
            scale: self.scale,
        }
    }
}

} // verus!
