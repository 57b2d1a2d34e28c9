//! Exact decimal amounts.
//!
//! An [`Amount`] is a signed 96-bit mantissa together with a scale between 0
//! and 28; it stands for `mantissa / 10^scale`. Its mathematical model is
//! [`Dec`]. Sums, differences and comparisons are computed by `rust_decimal`;
//! this module keeps only those results that are exact.

use vstd::prelude::*;
use rust_decimal::Decimal;

verus! {

/// The largest magnitude of a mantissa, `2^96 - 1`.
pub const MAX_MANTISSA: i128 = 79_228_162_514_264_337_593_543_950_335;

/// The largest scale.
pub const MAX_SCALE: u32 = 28;

/// `10^n`.
pub open spec fn pow10(n: nat) -> int
    decreases n,
{
    if n == 0 {
        1
    } else {
        10 * pow10((n - 1) as nat)
    }
}

/// The model of an amount: the number `mantissa / 10^scale`.
pub struct Dec {
    pub mantissa: int,
    pub scale: nat,
}

impl Dec {
    /// The mantissa fits in 96 bits and the scale is at most 28.
    pub open spec fn wf(self) -> bool {
        &&& -MAX_MANTISSA <= self.mantissa <= MAX_MANTISSA
        &&& self.scale <= MAX_SCALE
    }

    /// The mantissa that the same number has at the scale `s`, for
    /// `s >= self.scale`.
    pub open spec fn at_scale(self, s: nat) -> int
        recommends
            self.scale <= s,
    {
        self.mantissa * pow10((s - self.scale) as nat)
    }

    /// The number in units of `10^-28`, the finest that a scale allows. Two
    /// well-formed values are numerically equal exactly when their units are.
    pub open spec fn units(self) -> int
        recommends
            self.scale <= MAX_SCALE,
    {
        self.at_scale(MAX_SCALE as nat)
    }

    /// The larger of the two scales.
    pub open spec fn common_scale(self, rhs: Dec) -> nat {
        if self.scale >= rhs.scale {
            self.scale
        } else {
            rhs.scale
        }
    }

    /// The sum. Zero added to a number leaves the number as it is written;
    /// otherwise the sum is written at the larger of the two scales.
    pub open spec fn plus(self, rhs: Dec) -> Dec {
        if self.mantissa == 0 {
            rhs
        } else if rhs.mantissa == 0 {
            self
        } else {
            let s = self.common_scale(rhs);
            Dec { mantissa: self.at_scale(s) + rhs.at_scale(s), scale: s }
        }
    }

    /// The difference, written by the same rule as the sum.
    pub open spec fn minus(self, rhs: Dec) -> Dec {
        if self.mantissa == 0 {
            Dec { mantissa: -rhs.mantissa, scale: rhs.scale }
        } else if rhs.mantissa == 0 {
            self
        } else {
            let s = self.common_scale(rhs);
            Dec { mantissa: self.at_scale(s) - rhs.at_scale(s), scale: s }
        }
    }

    /// The sum can be held exactly: written by the rule of [`Dec::plus`], its
    /// mantissa fits in 96 bits.
    pub open spec fn plus_fits(self, rhs: Dec) -> bool {
        self.plus(rhs).wf()
    }

    /// The difference can be held exactly.
    pub open spec fn minus_fits(self, rhs: Dec) -> bool {
        self.minus(rhs).wf()
    }

    /// Numerically greater than or equal.
    pub open spec fn at_least(self, rhs: Dec) -> bool {
        self.units() >= rhs.units()
    }
}

/// `10^(a + b) == 10^a * 10^b`.
pub proof fn lemma_pow10_add(a: nat, b: nat)
    ensures
        pow10(a + b) == pow10(a) * pow10(b),
    decreases a,
{
    if a == 0 {
        assert(pow10(a + b) == 1 * pow10(b));
    } else {
        lemma_pow10_add((a - 1) as nat, b);
        let p: int = pow10((a - 1) as nat);
        let q: int = pow10(b);
        assert(pow10(a + b) == 10 * pow10((a + b - 1) as nat));
        assert(10 * (p * q) == (10 * p) * q) by (nonlinear_arith);
    }
}

/// `10^n` is positive.
pub proof fn lemma_pow10_positive(n: nat)
    ensures
        pow10(n) > 0,
    decreases n,
{
    if n > 0 {
        lemma_pow10_positive((n - 1) as nat);
    }
}

/// Writing a number at a coarser scale first does not change its units.
pub proof fn lemma_at_scale_units(d: Dec, s: nat)
    requires
        d.scale <= s <= MAX_SCALE,
    ensures
        d.at_scale(s) * pow10((MAX_SCALE - s) as nat) == d.units(),
{
    let p: int = pow10((s - d.scale) as nat);
    let q: int = pow10((MAX_SCALE - s) as nat);
    lemma_pow10_add((s - d.scale) as nat, (MAX_SCALE - s) as nat);
    assert((s - d.scale) as nat + (MAX_SCALE - s) as nat == (MAX_SCALE - d.scale) as nat);
    assert((d.mantissa * p) * q == d.mantissa * (p * q)) by (nonlinear_arith);
}

/// The sum is exact: its units are the sum of the units.
pub proof fn lemma_plus_units(a: Dec, b: Dec)
    requires
        a.scale <= MAX_SCALE,
        b.scale <= MAX_SCALE,
    ensures
        a.plus(b).units() == a.units() + b.units(),
        a.plus(b).scale <= MAX_SCALE,
{
    if a.mantissa != 0 && b.mantissa != 0 {
        let s = a.common_scale(b);
        let q: int = pow10((MAX_SCALE - s) as nat);
        let x: int = a.at_scale(s);
        let y: int = b.at_scale(s);
        lemma_at_scale_units(a, s);
        lemma_at_scale_units(b, s);
        assert((x + y) * q == x * q + y * q) by (nonlinear_arith);
        assert(a.plus(b).units() == (x + y) * pow10((MAX_SCALE - s) as nat));
    }
}

/// The difference is exact: its units are the difference of the units.
pub proof fn lemma_minus_units(a: Dec, b: Dec)
    requires
        a.scale <= MAX_SCALE,
        b.scale <= MAX_SCALE,
    ensures
        a.minus(b).units() == a.units() - b.units(),
        a.minus(b).scale <= MAX_SCALE,
{
    if a.mantissa == 0 {
        let m: int = b.mantissa;
        let q: int = pow10((MAX_SCALE - b.scale) as nat);
        assert((-m) * q == -(m * q)) by (nonlinear_arith);
    } else if b.mantissa != 0 {
        let s = a.common_scale(b);
        let q: int = pow10((MAX_SCALE - s) as nat);
        let x: int = a.at_scale(s);
        let y: int = b.at_scale(s);
        lemma_at_scale_units(a, s);
        lemma_at_scale_units(b, s);
        assert((x - y) * q == x * q - y * q) by (nonlinear_arith);
        assert(a.minus(b).units() == (x - y) * pow10((MAX_SCALE - s) as nat));
    }
}

/// An exact decimal amount.
#[derive(Clone, Copy, Debug)]
pub struct Amount {
    mantissa: i128,
    scale: u32,
}

impl View for Amount {
    type V = Dec;

    closed spec fn view(&self) -> Dec {
        Dec { mantissa: self.mantissa as int, scale: self.scale as nat }
    }
}

impl Amount {
    /// Holds of every amount: its model is well-formed.
    #[verifier::type_invariant]
    pub open spec fn wf(self) -> bool {
        self@.wf()
    }

    /// The amount `mantissa / 10^scale`, if the mantissa fits in 96 bits and
    /// the scale is at most 28.
    pub fn new(mantissa: i128, scale: u32) -> (r: Option<Amount>)
        ensures
            r is Some <==> (Dec { mantissa: mantissa as int, scale: scale as nat }).wf(),
            r matches Some(a) ==> a@ == (Dec { mantissa: mantissa as int, scale: scale as nat }),
    {
        if scale <= MAX_SCALE && -MAX_MANTISSA <= mantissa && mantissa <= MAX_MANTISSA {
            Some(Amount { mantissa, scale })
        } else {
            None
        }
    }

    /// Zero, written with four fractional digits.
    pub fn zero() -> (r: Amount)
        ensures
            r@ == (Dec { mantissa: 0, scale: 4 }),
    {
        Amount { mantissa: 0, scale: 4 }
    }

    /// The mantissa: the amount is `mantissa / 10^scale`.
    pub fn mantissa(&self) -> (m: i128)
        ensures
            m == self@.mantissa,
            -MAX_MANTISSA <= m <= MAX_MANTISSA,
    {
        proof {
            use_type_invariant(self);
        }
        self.mantissa
    }

    /// The scale: the number of fractional digits that the amount is
    /// written with.
    pub fn scale(&self) -> (s: u32)
        ensures
            s == self@.scale,
            s <= MAX_SCALE,
    {
        proof {
            use_type_invariant(self);
        }
        self.scale
    }

    /// The sum, where it can be held exactly.
    pub fn checked_add(self, rhs: Amount) -> (r: Option<Amount>)
        ensures
            r is Some <==> self@.plus_fits(rhs@),
            r matches Some(s) ==> s@ == self@.plus(rhs@),
    {
        proof {
            use_type_invariant(&self);
            use_type_invariant(&rhs);
        }
        match decimal_checked_add(self, rhs) {
            Some(s) => {
                if self.mantissa == 0 || rhs.mantissa == 0 || s.scale == larger(
                    self.scale,
                    rhs.scale,
                ) {
                    Some(s)
                } else {
                    None
                }
            },
            None => None,
        }
    }

    /// The difference, where it can be held exactly.
    pub fn checked_sub(self, rhs: Amount) -> (r: Option<Amount>)
        ensures
            r is Some <==> self@.minus_fits(rhs@),
            r matches Some(s) ==> s@ == self@.minus(rhs@),
    {
        proof {
            use_type_invariant(&self);
            use_type_invariant(&rhs);
        }
        match decimal_checked_sub(self, rhs) {
            Some(s) => {
                if self.mantissa == 0 || rhs.mantissa == 0 || s.scale == larger(
                    self.scale,
                    rhs.scale,
                ) {
                    Some(s)
                } else {
                    None
                }
            },
            None => None,
        }
    }

    /// Whether this amount is numerically greater than or equal to `rhs`.
    pub fn at_least(self, rhs: Amount) -> (r: bool)
        ensures
            r == self@.at_least(rhs@),
    {
        proof {
            use_type_invariant(&self);
            use_type_invariant(&rhs);
        }
        decimal_ge(self, rhs)
    }
}

fn larger(a: u32, b: u32) -> (r: u32)
    ensures
        r == if a >= b { a } else { b },
{
    if a >= b {
        a
    } else {
        b
    }
}

/// `Decimal::checked_add` of `rust_decimal`, on decimals built by
/// `Decimal::from_i128_with_scale` and read back by `mantissa` and `scale`.
///
/// Not proved; taken from the crate's source. The crate panics when it is
/// asked to build a decimal that is not well-formed. Where the sum as
/// [`Dec::plus`] writes it fits in 96 bits, the crate returns exactly that.
/// Where it does not fit, the crate either reports overflow or rounds the
/// sum to a smaller scale than the larger of the operands' scales.
#[verifier::external_body]
fn decimal_checked_add(a: Amount, b: Amount) -> (r: Option<Amount>)
    requires
        a@.wf(),
        b@.wf(),
    ensures
        match r {
            Some(s) => if a@.plus_fits(b@) {
                s@ == a@.plus(b@)
            } else {
                s@.scale < a@.common_scale(b@)
            },
            None => !a@.plus_fits(b@),
        },
{
    let x = Decimal::from_i128_with_scale(a.mantissa, a.scale);
    let y = Decimal::from_i128_with_scale(b.mantissa, b.scale);
    match x.checked_add(y) {
        Some(s) => Some(Amount { mantissa: s.mantissa(), scale: s.scale() }),
        None => None,
    }
}

/// `Decimal::checked_sub` of `rust_decimal`, on decimals built and read back
/// as for [`decimal_checked_add`].
///
/// Not proved; taken from the crate's source. Where the difference as
/// [`Dec::minus`] writes it fits in 96 bits, the crate returns exactly that.
/// Where it does not fit, the crate either reports overflow or rounds the
/// difference to a smaller scale than the larger of the operands' scales.
#[verifier::external_body]
fn decimal_checked_sub(a: Amount, b: Amount) -> (r: Option<Amount>)
    requires
        a@.wf(),
        b@.wf(),
    ensures
        match r {
            Some(s) => if a@.minus_fits(b@) {
                s@ == a@.minus(b@)
            } else {
                s@.scale < a@.common_scale(b@)
            },
            None => !a@.minus_fits(b@),
        },
{
    let x = Decimal::from_i128_with_scale(a.mantissa, a.scale);
    let y = Decimal::from_i128_with_scale(b.mantissa, b.scale);
    match x.checked_sub(y) {
        Some(s) => Some(Amount { mantissa: s.mantissa(), scale: s.scale() }),
        None => None,
    }
}

/// The operator `>=` on `rust_decimal::Decimal`, on decimals built by
/// `Decimal::from_i128_with_scale`.
///
/// Not proved; taken from the crate's source: the comparison is by numeric
/// value, whatever the scales.
#[verifier::external_body]
fn decimal_ge(a: Amount, b: Amount) -> (r: bool)
    requires
        a@.wf(),
        b@.wf(),
    ensures
        r == a@.at_least(b@),
{
    let x = Decimal::from_i128_with_scale(a.mantissa, a.scale);
    let y = Decimal::from_i128_with_scale(b.mantissa, b.scale);
    x >= y
}

} // verus!
