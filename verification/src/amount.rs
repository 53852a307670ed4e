//! Exact decimal amounts.
//!
//! An [`Amount`] is a signed 96-bit mantissa with a scale between 0 and 28:
//! the number `mantissa / 10^scale`, which is what a `Decimal` of rust_decimal
//! holds. Its view is that number counted in units of `10^-28`, an integer, so
//! that amounts of different scales compare and add as mathematical values.
//!
//! Sums, differences and comparisons are computed by rust_decimal. A sum or
//! difference is exact wherever the exact result can be written as an amount
//! at all; where it cannot, rust_decimal returns nothing or rounds.

use rust_decimal::Decimal;
use vstd::prelude::*;
use vstd::std_specs::cmp::PartialEqSpecImpl;

verus! {

/// The largest scale an amount can have.
pub const MAX_SCALE: u32 = 28;

/// The largest magnitude of a mantissa: `2^96 - 1`.
pub const MAX_MANTISSA: i128 = 79_228_162_514_264_337_593_543_950_335;

/// `10^n`.
pub open spec fn pow10(n: nat) -> int
    decreases n,
{
    if n == 0 {
        1
    } else {
        10 * pow10((n - 1) as nat)
    }
}

/// Whether a mantissa and a scale describe an amount.
pub open spec fn valid_parts(mantissa: int, scale: int) -> bool {
    &&& -MAX_MANTISSA <= mantissa <= MAX_MANTISSA
    &&& 0 <= scale <= MAX_SCALE
}

/// The value of `mantissa / 10^scale` in units of `10^-28`.
pub open spec fn units(mantissa: int, scale: int) -> int {
    if 0 <= scale <= MAX_SCALE {
        mantissa * pow10((MAX_SCALE - scale) as nat)
    } else {
        0
    }
}

/// Powers of ten are positive.
pub proof fn lemma_pow10_positive(n: nat)
    ensures
        pow10(n) >= 1,
    decreases n,
{
    if n > 0 {
        lemma_pow10_positive((n - 1) as nat);
    }
}

/// The sign of a valid amount's value is the sign of its mantissa.
pub proof fn lemma_units_sign(mantissa: int, scale: int)
    requires
        0 <= scale <= MAX_SCALE,
    ensures
        units(mantissa, scale) < 0 <==> mantissa < 0,
        units(mantissa, scale) == 0 <==> mantissa == 0,
{
    let p = pow10((MAX_SCALE - scale) as nat);
    lemma_pow10_positive((MAX_SCALE - scale) as nat);
    assert((mantissa < 0 ==> mantissa * p < 0) && (mantissa == 0 ==> mantissa * p == 0) && (mantissa
        > 0 ==> mantissa * p > 0)) by (nonlinear_arith)
        requires
            p >= 1,
    ;
}

/// Whether some amount has the value `value`, counted in units of `10^-28`:
/// whether it can be written with a 96-bit mantissa at some scale from 0 to
/// 28.
pub open spec fn writable(value: int) -> bool {
    exists|m: int, s: int| valid_parts(m, s) && #[trigger] units(m, s) == value
}

/// What `Decimal::checked_add` of rust_decimal returns for two amounts given
/// as mantissa and scale, as mantissa and scale.
pub uninterp spec fn decimal_sum(m1: int, s1: int, m2: int, s2: int) -> Option<(int, int)>;

/// What `Decimal::checked_sub` of rust_decimal returns for two amounts given
/// as mantissa and scale, as mantissa and scale.
pub uninterp spec fn decimal_difference(m1: int, s1: int, m2: int, s2: int) -> Option<(int, int)>;

/// What the library relies on of a sum or difference `r` that rust_decimal
/// returns where the exact result is `exact`: a result is a valid amount, and
/// where the exact result can be written, it is returned, at whatever scale.
/// Where it cannot be written, rust_decimal returns nothing or a rounded
/// amount.
pub open spec fn faithful(exact: int, r: Option<(int, int)>) -> bool {
    &&& r matches Some(p) ==> valid_parts(p.0, p.1)
    &&& writable(exact) ==> (r matches Some(p) && units(p.0, p.1) == exact)
}

/// The parts of a result as mathematical integers.
pub open spec fn parts_of(r: Option<(i128, u32)>) -> Option<(int, int)> {
    match r {
        Some(p) => Some((p.0 as int, p.1 as int)),
        None => None,
    }
}

/// `Decimal::checked_add` of rust_decimal, on amounts given and returned as
/// mantissa and scale (`Decimal::from_i128_with_scale`, `Decimal::mantissa`,
/// `Decimal::scale`). Claimed, for two valid amounts: the result depends on
/// the operands alone; it is a valid amount if there is one; and where the
/// exact sum can be written as an amount, the call returns an amount of that
/// value.
#[verifier::external_body]
fn decimal_checked_add(m1: i128, s1: u32, m2: i128, s2: u32) -> (r: Option<(i128, u32)>)
    requires
        valid_parts(m1 as int, s1 as int),
        valid_parts(m2 as int, s2 as int),
    ensures
        parts_of(r) == decimal_sum(m1 as int, s1 as int, m2 as int, s2 as int),
        faithful(units(m1 as int, s1 as int) + units(m2 as int, s2 as int), parts_of(r)),
{
    let a = Decimal::from_i128_with_scale(m1, s1);
    let b = Decimal::from_i128_with_scale(m2, s2);
    match a.checked_add(b) {
        Some(sum) => Some((sum.mantissa(), sum.scale())),
        None => None,
    }
}

/// `Decimal::checked_sub` of rust_decimal, on amounts given and returned as
/// mantissa and scale. Claimed, for two valid amounts: the result depends on
/// the operands alone; it is a valid amount if there is one; and where the
/// exact difference can be written as an amount, the call returns an amount
/// of that value.
#[verifier::external_body]
fn decimal_checked_sub(m1: i128, s1: u32, m2: i128, s2: u32) -> (r: Option<(i128, u32)>)
    requires
        valid_parts(m1 as int, s1 as int),
        valid_parts(m2 as int, s2 as int),
    ensures
        parts_of(r) == decimal_difference(m1 as int, s1 as int, m2 as int, s2 as int),
        faithful(units(m1 as int, s1 as int) - units(m2 as int, s2 as int), parts_of(r)),
{
    let a = Decimal::from_i128_with_scale(m1, s1);
    let b = Decimal::from_i128_with_scale(m2, s2);
    match a.checked_sub(b) {
        Some(difference) => Some((difference.mantissa(), difference.scale())),
        None => None,
    }
}

/// The `<=` of rust_decimal's `Decimal`, on amounts given as mantissa and
/// scale. Claimed, for two valid amounts: the call compares their values.
#[verifier::external_body]
fn decimal_le(m1: i128, s1: u32, m2: i128, s2: u32) -> (r: bool)
    requires
        valid_parts(m1 as int, s1 as int),
        valid_parts(m2 as int, s2 as int),
    ensures
        r == (units(m1 as int, s1 as int) <= units(m2 as int, s2 as int)),
{
    Decimal::from_i128_with_scale(m1, s1) <= Decimal::from_i128_with_scale(m2, s2)
}

/// An exact decimal number `mantissa / 10^scale` with `|mantissa| < 2^96` and
/// `scale <= 28`.
#[derive(Clone, Copy, Debug)]
pub struct Amount {
    mantissa: i128,
    scale: u32,
}

impl View for Amount {
    type V = int;

    /// The value in units of `10^-28`.
    open spec fn view(&self) -> int {
        units(self.mantissa_of(), self.scale_of())
    }
}

impl Amount {
    /// The mantissa, as a mathematical integer.
    pub closed spec fn mantissa_of(self) -> int {
        self.mantissa as int
    }

    /// The scale, as a mathematical integer.
    pub closed spec fn scale_of(self) -> int {
        self.scale as int
    }

    /// Every amount that executable code holds is valid.
    #[verifier::type_invariant]
    pub open spec fn valid(self) -> bool {
        valid_parts(self.mantissa_of(), self.scale_of())
    }

    /// The amount with the given mantissa and scale.
    pub closed spec fn from_parts(mantissa: int, scale: int) -> Amount {
        Amount { mantissa: mantissa as i128, scale: scale as u32 }
    }

    /// `from_parts` gives back the parts it was made of.
    pub proof fn lemma_from_parts(mantissa: int, scale: int)
        requires
            valid_parts(mantissa, scale),
        ensures
            Self::from_parts(mantissa, scale).mantissa_of() == mantissa,
            Self::from_parts(mantissa, scale).scale_of() == scale,
            Self::from_parts(mantissa, scale).valid(),
    {
    }

    /// The amount `mantissa / 10^scale`, or `None` where the mantissa does not
    /// fit 96 bits or the scale is above 28.
    pub fn new(mantissa: i128, scale: u32) -> (r: Option<Amount>)
        ensures
            r == (if valid_parts(mantissa as int, scale as int) {
                Some(Self::from_parts(mantissa as int, scale as int))
            } else {
                None
            }),
    {
        if scale <= MAX_SCALE && -MAX_MANTISSA <= mantissa && mantissa <= MAX_MANTISSA {
            Some(Amount { mantissa, scale })
        } else {
            None
        }
    }

    /// Zero, at scale 0.
    pub fn zero() -> (r: Amount)
        ensures
            r == Self::from_parts(0, 0),
            r.valid(),
            r@ == 0,
    {
        Amount { mantissa: 0, scale: 0 }
    }

    /// The whole number `n`, at scale 0.
    pub fn from_i64(n: i64) -> (r: Amount)
        ensures
            r == Self::from_parts(n as int, 0),
            r.valid(),
            r@ == n * pow10(28),
    {
        Amount { mantissa: n as i128, scale: 0 }
    }

    /// The amount that parts returned by rust_decimal describe.
    pub open spec fn of_parts(r: Option<(int, int)>) -> Option<Amount> {
        match r {
            Some(p) => Some(Self::from_parts(p.0, p.1)),
            None => None,
        }
    }

    /// `self + other` as rust_decimal computes it: the exact sum, at whatever
    /// scale, where that can be written as an amount; else nothing or a
    /// rounded sum. A result that were not `faithful` would not be taken.
    pub open spec fn sum(self, other: Amount) -> Option<Amount> {
        let r = decimal_sum(
            self.mantissa_of(),
            self.scale_of(),
            other.mantissa_of(),
            other.scale_of(),
        );
        if faithful(self@ + other@, r) {
            Self::of_parts(r)
        } else {
            None
        }
    }

    /// `self - other` as rust_decimal computes it: the exact difference, at
    /// whatever scale, where that can be written as an amount; else nothing
    /// or a rounded difference. A result that were not `faithful` would not be
    /// taken.
    pub open spec fn difference(self, other: Amount) -> Option<Amount> {
        let r = decimal_difference(
            self.mantissa_of(),
            self.scale_of(),
            other.mantissa_of(),
            other.scale_of(),
        );
        if faithful(self@ - other@, r) {
            Self::of_parts(r)
        } else {
            None
        }
    }

    /// The same number with the opposite sign, at the same scale.
    pub open spec fn negated(self) -> Amount {
        Self::from_parts(-self.mantissa_of(), self.scale_of())
    }

    /// Whether the amount is below zero.
    pub fn is_negative(&self) -> (r: bool)
        ensures
            r == (self@ < 0),
    {
        proof {
            use_type_invariant(self);
            lemma_units_sign(self.mantissa as int, self.scale as int);
        }
        self.mantissa < 0
    }

    /// Whether the amount is zero.
    pub fn is_zero(&self) -> (r: bool)
        ensures
            r == (self@ == 0),
    {
        proof {
            use_type_invariant(self);
            lemma_units_sign(self.mantissa as int, self.scale as int);
        }
        self.mantissa == 0
    }

    /// The amount with the opposite sign.
    pub fn neg(self) -> (r: Amount)
        ensures
            r == self.negated(),
            r@ == -self@,
    {
        proof {
            use_type_invariant(&self);
            self.lemma_negated();
        }
        Amount { mantissa: -self.mantissa, scale: self.scale }
    }

    /// `self + other` as rust_decimal computes it. Where the exact sum can be
    /// written as an amount, the result is an amount of that value; where it
    /// cannot, the result is `None` or a rounded sum.
    pub fn checked_add(self, other: Amount) -> (r: Option<Amount>)
        ensures
            r == self.sum(other),
            writable(self@ + other@) ==> (r matches Some(v) && v@ == self@ + other@),
    {
        proof {
            use_type_invariant(&self);
            use_type_invariant(&other);
        }
        match decimal_checked_add(self.mantissa, self.scale, other.mantissa, other.scale) {
            Some((mantissa, scale)) => Some(Amount { mantissa, scale }),
            None => None,
        }
    }

    /// `self - other` as rust_decimal computes it. Where the exact difference
    /// can be written as an amount, the result is an amount of that value;
    /// where it cannot, the result is `None` or a rounded difference.
    pub fn checked_sub(self, other: Amount) -> (r: Option<Amount>)
        ensures
            r == self.difference(other),
            writable(self@ - other@) ==> (r matches Some(v) && v@ == self@ - other@),
    {
        proof {
            use_type_invariant(&self);
            use_type_invariant(&other);
        }
        match decimal_checked_sub(self.mantissa, self.scale, other.mantissa, other.scale) {
            Some((mantissa, scale)) => Some(Amount { mantissa, scale }),
            None => None,
        }
    }

    /// Whether `self` is at most `other`, as numbers.
    pub fn le(&self, other: &Amount) -> (r: bool)
        ensures
            r == (self@ <= other@),
    {
        proof {
            use_type_invariant(self);
            use_type_invariant(other);
        }
        decimal_le(self.mantissa, self.scale, other.mantissa, other.scale)
    }

    /// Whether `self` is below `other`, as numbers.
    pub fn lt(&self, other: &Amount) -> (r: bool)
        ensures
            r == (self@ < other@),
    {
        !other.le(self)
    }

    /// Negation keeps validity and negates the value.
    pub proof fn lemma_negated(self)
        requires
            self.valid(),
        ensures
            self.negated().valid(),
            self.negated().mantissa_of() == -self.mantissa_of(),
            self.negated().scale_of() == self.scale_of(),
            self.negated()@ == -self@,
    {
        Self::lemma_from_parts(-self.mantissa_of(), self.scale_of());
        let p = pow10((MAX_SCALE - self.scale_of()) as nat);
        assert((-self.mantissa_of()) * p == -(self.mantissa_of() * p)) by (nonlinear_arith);
    }

    /// The value of a valid amount can be written.
    pub proof fn lemma_writable(self)
        requires
            self.valid(),
        ensures
            writable(self@),
    {
        assert(valid_parts(self.mantissa_of(), self.scale_of()) && units(
            self.mantissa_of(),
            self.scale_of(),
        ) == self@);
    }

    /// A sum that is taken is a valid amount, and it is the exact sum where
    /// that can be written.
    pub proof fn lemma_sum(self, other: Amount)
        requires
            self.sum(other) is Some,
        ensures
            self.sum(other).unwrap().valid(),
            writable(self@ + other@) ==> self.sum(other).unwrap()@ == self@ + other@,
    {
        let p = decimal_sum(
            self.mantissa_of(),
            self.scale_of(),
            other.mantissa_of(),
            other.scale_of(),
        ).unwrap();
        Self::lemma_from_parts(p.0, p.1);
    }

    /// A difference that is taken is a valid amount, and it is the exact
    /// difference where that can be written.
    pub proof fn lemma_difference(self, other: Amount)
        requires
            self.difference(other) is Some,
        ensures
            self.difference(other).unwrap().valid(),
            writable(self@ - other@) ==> self.difference(other).unwrap()@ == self@ - other@,
    {
        let p = decimal_difference(
            self.mantissa_of(),
            self.scale_of(),
            other.mantissa_of(),
            other.scale_of(),
        ).unwrap();
        Self::lemma_from_parts(p.0, p.1);
    }

    /// The mantissa.
    pub fn mantissa(&self) -> (m: i128)
        ensures
            m == self.mantissa_of(),
    {
        self.mantissa
    }

    /// The scale.
    pub fn scale(&self) -> (s: u32)
        ensures
            s == self.scale_of(),
    {
        self.scale
    }
}

/// Two amounts are equal when they are the same number, whatever their scales.
impl PartialEq for Amount {
    fn eq(&self, other: &Amount) -> (r: bool) {
        self.le(other) && other.le(self)
    }
}

impl Eq for Amount {

}

impl PartialEqSpecImpl for Amount {
    open spec fn obeys_eq_spec() -> bool {
        true
    }

    open spec fn eq_spec(&self, other: &Amount) -> bool {
        self@ == other@
    }
}

} // verus!
