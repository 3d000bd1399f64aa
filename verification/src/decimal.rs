//! Fixed-point decimal arithmetic with explicit precision tracking.
//!
//! A [`FixedDecimal`] is a scaled integer `raw` paired with a `precision`
//! tag and stands for the non-negative value `raw / 10^precision`. Every
//! operation states exactly how the raw payload and the precision of its
//! result derive from its operands: addition, subtraction and absolute
//! difference demand equal precisions, multiplication adds the precisions,
//! and division rescales the dividend by the divisor's precision before
//! integer-dividing, so the quotient keeps the dividend's precision.
//! Comparisons normalize the two scales first, so they order the represented
//! values, not the raw payloads.

use vstd::prelude::*;

verus! {

use vstd::arithmetic::div_mod::{
    lemma_div_by_multiple,
    lemma_div_is_ordered,
    lemma_div_pos_is_pos,
    lemma_fundamental_div_mod,
    lemma_fundamental_div_mod_converse,
    lemma_hoist_over_denominator,
    lemma_mod_pos_bound,
};
use vstd::arithmetic::mul::{lemma_mul_inequality, lemma_mul_nonnegative};

/// Largest exponent `n` such that `10^n` fits in a `u128`.
pub const MAX_POW10: u32 = 38;

/// `10^n` as a mathematical natural number.
pub open spec fn pow10(n: nat) -> nat
    decreases n,
{
    if n == 0 {
        1nat
    } else {
        10 * pow10((n - 1) as nat)
    }
}

pub proof fn lemma_pow10_pos(n: nat)
    ensures
        pow10(n) >= 1,
    decreases n,
{
    if n > 0 {
        lemma_pow10_pos((n - 1) as nat);
    }
}

pub proof fn lemma_pow10_adds(a: nat, b: nat)
    ensures
        pow10(a + b) == pow10(a) * pow10(b),
    decreases a,
{
    if a == 0 {
        assert(pow10(a) == 1);
        assert(pow10(a + b) == pow10(a) * pow10(b));
    } else {
        lemma_pow10_adds((a - 1) as nat, b);
        let pa1 = pow10((a - 1) as nat);
        let pb = pow10(b);
        assert(pow10((a + b - 1) as nat) == pa1 * pb);
        assert(pow10(a + b) == 10 * pow10((a + b - 1) as nat));
        assert((10 * pa1) * pb == 10 * (pa1 * pb)) by (nonlinear_arith);
        assert(pow10(a) == 10 * pa1);
    }
}

pub proof fn lemma_pow10_increases(a: nat, b: nat)
    requires
        a <= b,
    ensures
        pow10(a) <= pow10(b),
{
    lemma_pow10_adds(a, (b - a) as nat);
    lemma_pow10_pos((b - a) as nat);
    lemma_pow10_pos(a);
    assert(pow10(a) * 1 <= pow10(a) * pow10((b - a) as nat)) by (nonlinear_arith)
        requires
            pow10(a) >= 1,
            pow10((b - a) as nat) >= 1,
    ;
}

pub proof fn lemma_pow10_38_value()
    ensures
        pow10(38) == 100_000_000_000_000_000_000_000_000_000_000_000_000nat,
{
    reveal_with_fuel(pow10, 40);
}

/// The concrete powers of ten that the vault's formulas use.
pub proof fn lemma_pow10_small_values()
    ensures
        pow10(0) == 1,
        pow10(4) == 10_000,
        pow10(8) == 100_000_000,
        pow10(18) == 1_000_000_000_000_000_000,
{
    reveal_with_fuel(pow10, 20);
}

/// Runtime power of ten for rescaling raw payloads.
pub fn pow10_u128(n: u32) -> (r: u128)
    requires
        n <= MAX_POW10,
    ensures
        r == pow10(n as nat),
{
    let mut result: u128 = 1;
    let mut i: u32 = 0;
    while i < n
        invariant
            i <= n,
            n <= MAX_POW10,
            result == pow10(i as nat),
        decreases n - i,
    {
        proof {
            lemma_pow10_38_value();
            lemma_pow10_increases((i + 1) as nat, 38nat);
            assert(pow10((i + 1) as nat) == 10 * pow10(i as nat));
        }
        result = result * 10;
        i = i + 1;
    }
    result
}

/// Failures of the decimal arithmetic itself.
///
/// Any other misuse (overflow of the 128-bit payload, subtraction below
/// zero) is ruled out by the preconditions of the individual operations.
#[derive(Clone, Copy, Debug, PartialEq, Eq, Structural)]
pub enum DecimalError {
    /// Addition, subtraction or absolute difference was asked of operands
    /// whose precisions differ.
    PrecisionMismatch,
    /// Division by a decimal whose raw value is zero.
    DivisionByZero,
}

/// A non-negative decimal value `raw / 10^precision`.
#[derive(Clone, Copy, Debug, PartialEq, Eq, Structural)]
pub struct FixedDecimal {
    /// Scaled integer payload.
    pub raw: u128,
    /// Number of fractional decimal digits carried by `raw`.
    pub precision: u32,
}

impl FixedDecimal {
    /// The represented values satisfy `self < other`, stated by
    /// cross-multiplying the two scales.
    pub open spec fn lt_spec(self, other: Self) -> bool {
        self.raw * pow10(other.precision as nat) < other.raw * pow10(self.precision as nat)
    }

    /// The represented values satisfy `self <= other`.
    pub open spec fn le_spec(self, other: Self) -> bool {
        self.raw * pow10(other.precision as nat) <= other.raw * pow10(self.precision as nat)
    }

    /// Builds a decimal directly from a raw payload and a precision.
    pub fn from_raw_units(raw: u128, precision: u32) -> (r: Self)
        ensures
            r.raw == raw,
            r.precision == precision,
    {
        FixedDecimal { raw, precision }
    }

    /// Zero at the requested precision.
    pub fn zero(precision: u32) -> (r: Self)
        ensures
            r.raw == 0,
            r.precision == precision,
    {
        FixedDecimal { raw: 0, precision }
    }

    /// One at the requested precision, that is `10^precision` raw units.
    pub fn one(precision: u32) -> (r: Self)
        requires
            precision <= MAX_POW10,
        ensures
            r.raw == pow10(precision as nat),
            r.precision == precision,
    {
        FixedDecimal { raw: pow10_u128(precision), precision }
    }

    /// A whole number of basis points, carried at basis-point precision.
    pub fn from_bps(bps: u64) -> (r: Self)
        ensures
            r.raw == bps * 10_000,
            r.precision == crate::constants::BPS_PRECISION,
    {
        FixedDecimal { raw: (bps as u128) * 10_000, precision: crate::constants::BPS_PRECISION }
    }

    /// The raw payload, dropping the precision tag.
    pub fn into_raw_units(&self) -> (r: u128)
        ensures
            r == self.raw,
    {
        self.raw
    }

    /// The precision tag.
    pub fn scale(&self) -> (r: u32)
        ensures
            r == self.precision,
    {
        self.precision
    }

    /// Whether the value is zero.
    pub fn is_zero(&self) -> (r: bool)
        ensures
            r == (self.raw == 0),
    {
        self.raw == 0
    }

    /// Whether the value is strictly positive.
    pub fn is_gt_zero(&self) -> (r: bool)
        ensures
            r == (self.raw > 0),
    {
        self.raw > 0
    }

    /// Scales `raw` by `10^d`, or reports that the result exceeds `u128`.
    fn scale_raw(raw: u128, d: u32) -> (r: Option<u128>)
        ensures
            r matches Some(v) ==> v == raw * pow10(d as nat),
            r is None ==> raw * pow10(d as nat) > u128::MAX,
    {
        if raw == 0 {
            Some(0)
        } else if d > MAX_POW10 {
            proof {
                lemma_pow10_38_value();
                lemma_pow10_increases(39nat, d as nat);
                assert(pow10(39nat) == 10 * pow10(38nat));
                lemma_mul_inequality(1, raw as int, pow10(d as nat) as int);
            }
            None
        } else {
            let p: u128 = pow10_u128(d);
            raw.checked_mul(p)
        }
    }

    /// Strictly-less comparison of the represented values.
    pub fn lt(&self, other: &Self) -> (r: bool)
        ensures
            r == self.lt_spec(*other),
    {
        proof {
            lemma_pow10_pos(self.precision as nat);
            lemma_pow10_pos(other.precision as nat);
        }
        if self.precision == other.precision {
            proof {
                lemma_cmp_same_scale(
                    self.raw as nat,
                    other.raw as nat,
                    pow10(self.precision as nat),
                );
            }
            self.raw < other.raw
        } else if self.precision < other.precision {
            let d: u32 = other.precision - self.precision;
            proof {
                lemma_cmp_scaled(
                    self.raw as nat,
                    other.raw as nat,
                    d as nat,
                    self.precision as nat,
                );
            }
            match Self::scale_raw(self.raw, d) {
                Some(s) => s < other.raw,
                None => false,
            }
        } else {
            let d: u32 = self.precision - other.precision;
            proof {
                lemma_cmp_scaled(
                    other.raw as nat,
                    self.raw as nat,
                    d as nat,
                    other.precision as nat,
                );
            }
            match Self::scale_raw(other.raw, d) {
                Some(s) => self.raw < s,
                None => true,
            }
        }
    }

    /// Less-or-equal comparison of the represented values.
    pub fn le(&self, other: &Self) -> (r: bool)
        ensures
            r == self.le_spec(*other),
    {
        proof {
            lemma_pow10_pos(self.precision as nat);
            lemma_pow10_pos(other.precision as nat);
        }
        if self.precision == other.precision {
            proof {
                lemma_cmp_same_scale(
                    self.raw as nat,
                    other.raw as nat,
                    pow10(self.precision as nat),
                );
            }
            self.raw <= other.raw
        } else if self.precision < other.precision {
            let d: u32 = other.precision - self.precision;
            proof {
                lemma_cmp_scaled(
                    self.raw as nat,
                    other.raw as nat,
                    d as nat,
                    self.precision as nat,
                );
            }
            match Self::scale_raw(self.raw, d) {
                Some(s) => s <= other.raw,
                None => false,
            }
        } else {
            let d: u32 = self.precision - other.precision;
            proof {
                lemma_cmp_scaled(
                    other.raw as nat,
                    self.raw as nat,
                    d as nat,
                    other.precision as nat,
                );
            }
            match Self::scale_raw(other.raw, d) {
                Some(s) => self.raw <= s,
                None => true,
            }
        }
    }

    /// Strictly-greater comparison of the represented values.
    pub fn gt(&self, other: &Self) -> (r: bool)
        ensures
            r == other.lt_spec(*self),
    {
        other.lt(self)
    }

    /// Greater-or-equal comparison of the represented values.
    pub fn ge(&self, other: &Self) -> (r: bool)
        ensures
            r == other.le_spec(*self),
    {
        other.le(self)
    }

    /// Addition; both operands must carry the same precision.
    pub fn try_add(self, other: Self) -> (r: Result<Self, DecimalError>)
        requires
            self.precision == other.precision ==> self.raw + other.raw <= u128::MAX,
        ensures
            self.precision == other.precision ==> (r matches Ok(v) && v.raw == self.raw
                + other.raw && v.precision == self.precision),
            self.precision != other.precision ==> (r matches Err(e) && e
                == DecimalError::PrecisionMismatch),
    {
        if self.precision == other.precision {
            Ok(FixedDecimal { raw: self.raw + other.raw, precision: self.precision })
        } else {
            Err(DecimalError::PrecisionMismatch)
        }
    }

    /// Subtraction; both operands must carry the same precision, and the
    /// result may not drop below zero.
    pub fn try_sub(self, other: Self) -> (r: Result<Self, DecimalError>)
        requires
            self.precision == other.precision ==> other.raw <= self.raw,
        ensures
            self.precision == other.precision ==> (r matches Ok(v) && v.raw == self.raw
                - other.raw && v.precision == self.precision),
            self.precision != other.precision ==> (r matches Err(e) && e
                == DecimalError::PrecisionMismatch),
    {
        if self.precision == other.precision {
            Ok(FixedDecimal { raw: self.raw - other.raw, precision: self.precision })
        } else {
            Err(DecimalError::PrecisionMismatch)
        }
    }

    /// Absolute difference at the shared precision.
    pub fn try_abs_diff(self, other: Self) -> (r: Result<Self, DecimalError>)
        ensures
            self.precision == other.precision ==> (r matches Ok(v) && v.precision
                == self.precision && v.raw == if self.raw >= other.raw {
                self.raw - other.raw
            } else {
                other.raw - self.raw
            }),
            self.precision != other.precision ==> (r matches Err(e) && e
                == DecimalError::PrecisionMismatch),
    {
        if self.precision == other.precision {
            if self.raw >= other.raw {
                Ok(FixedDecimal { raw: self.raw - other.raw, precision: self.precision })
            } else {
                Ok(FixedDecimal { raw: other.raw - self.raw, precision: self.precision })
            }
        } else {
            Err(DecimalError::PrecisionMismatch)
        }
    }

    /// Multiplication; the result carries the sum of the two precisions.
    pub fn mul(self, other: Self) -> (r: Self)
        requires
            self.raw * other.raw <= u128::MAX,
            self.precision + other.precision <= u32::MAX,
        ensures
            r.raw == self.raw * other.raw,
            r.precision == self.precision + other.precision,
    {
        FixedDecimal { raw: self.raw * other.raw, precision: self.precision + other.precision }
    }

    /// Division: the dividend is rescaled by the divisor's precision before
    /// integer-dividing, so the quotient keeps the dividend's precision.
    pub fn try_div(self, other: Self) -> (r: Result<Self, DecimalError>)
        requires
            other.raw != 0 ==> other.precision <= MAX_POW10 && other.raw <= u128::MAX / 2 && (
            self.raw * pow10(other.precision as nat)) as int / (other.raw as int) <= u128::MAX,
        ensures
            other.raw == 0 ==> (r matches Err(e) && e == DecimalError::DivisionByZero),
            other.raw != 0 ==> (r matches Ok(v) && v.raw == (self.raw * pow10(
                other.precision as nat,
            )) as int / (other.raw as int) && v.precision == self.precision),
    {
        if other.raw == 0 {
            Err(DecimalError::DivisionByZero)
        } else {
            let factor: u128 = pow10_u128(other.precision);
            Ok(
                FixedDecimal {
                    raw: mul_div_raw(self.raw, factor, other.raw),
                    precision: self.precision,
                },
            )
        }
    }

    /// Fused multiply-divide `self * other / divisor`, carried out without
    /// the double-width intermediate. The divisor's precision cancels, so
    /// the result has precision `self.precision + other.precision -
    /// divisor.precision`.
    pub fn mul_div(self, other: Self, divisor: Self) -> (r: Result<Self, DecimalError>)
        requires
            self.precision + other.precision <= u32::MAX,
            self.precision + other.precision >= divisor.precision,
            divisor.raw != 0 ==> divisor.raw <= u128::MAX / 2 && (self.raw * other.raw) / (
            divisor.raw as int) <= u128::MAX,
        ensures
            divisor.raw == 0 ==> (r matches Err(e) && e == DecimalError::DivisionByZero),
            divisor.raw != 0 ==> (r matches Ok(v) && v.raw == (self.raw * other.raw) / (
            divisor.raw as int) && v.precision == self.precision + other.precision
                - divisor.precision),
    {
        if divisor.raw == 0 {
            Err(DecimalError::DivisionByZero)
        } else {
            Ok(
                FixedDecimal {
                    raw: mul_div_raw(self.raw, other.raw, divisor.raw),
                    precision: self.precision + other.precision - divisor.precision,
                },
            )
        }
    }

    /// Explicit change of precision: scaling up preserves the value exactly,
    /// scaling down truncates toward zero.
    pub fn rescale(self, new_precision: u32) -> (r: Self)
        requires
            new_precision > self.precision ==> new_precision - self.precision <= MAX_POW10
                && self.raw * pow10((new_precision - self.precision) as nat) <= u128::MAX,
            new_precision < self.precision ==> self.precision - new_precision <= MAX_POW10,
        ensures
            r.precision == new_precision,
            new_precision >= self.precision ==> r.raw == self.raw * pow10(
                (new_precision - self.precision) as nat,
            ),
            new_precision < self.precision ==> r.raw == (self.raw as nat) / pow10(
                (self.precision - new_precision) as nat,
            ),
    {
        if new_precision > self.precision {
            let factor: u128 = pow10_u128(new_precision - self.precision);
            FixedDecimal { raw: self.raw * factor, precision: new_precision }
        } else if new_precision < self.precision {
            let factor: u128 = pow10_u128(self.precision - new_precision);
            proof {
                lemma_pow10_pos((self.precision - new_precision) as nat);
            }
            FixedDecimal { raw: self.raw / factor, precision: new_precision }
        } else {
            proof {
                assert(pow10(0nat) == 1);
                assert(self.raw * pow10((new_precision - self.precision) as nat) == self.raw)
                    by (nonlinear_arith)
                    requires
                        pow10((new_precision - self.precision) as nat) == 1,
                ;
            }
            self
        }
    }

    /// The whole-number part of the value, truncating the fraction.
    pub fn trunc(&self) -> (r: u128)
        requires
            self.precision <= MAX_POW10,
        ensures
            r == (self.raw as nat) / pow10(self.precision as nat),
    {
        let factor: u128 = pow10_u128(self.precision);
        proof {
            lemma_pow10_pos(self.precision as nat);
        }
        self.raw / factor
    }
}

/// Multiplying a truncated quotient back never exceeds the dividend.
pub proof fn lemma_mul_quotient_upper(x: int, d: int)
    requires
        0 <= x,
        0 < d,
    ensures
        (x / d) * d <= x,
{
    lemma_fundamental_div_mod(x, d);
    lemma_mod_pos_bound(x, d);
}

/// A proportional claim on a total never exceeds the total itself.
pub proof fn lemma_claim_within_total(total: int, share: int, supply: int)
    requires
        total >= 0,
        0 <= share <= supply,
        supply > 0,
    ensures
        0 <= (total * share) / supply <= total,
{
    lemma_div_pos_is_pos(total * share, supply);
    assert(total * share <= total * supply) by (nonlinear_arith)
        requires
            total >= 0,
            share <= supply,
    ;
    lemma_div_is_ordered(total * share, total * supply, supply);
    lemma_div_by_multiple(total, supply);
    assert(total * supply == supply * total) by (nonlinear_arith);
    assert(total * share >= 0) by (nonlinear_arith)
        requires
            total >= 0,
            share >= 0,
    ;
}

/// If `q * d <= v` then `q <= v / d`.
pub proof fn lemma_quotient_bound(q: int, d: int, v: int)
    requires
        0 <= q,
        0 < d,
        q * d <= v,
    ensures
        q <= v / d,
{
    lemma_div_is_ordered(q * d, v, d);
    lemma_div_by_multiple(q, d);
}

/// Splitting the multiplicand: `(x*y)/d == (x/d)*y + ((x%d)*y)/d`.
proof fn lemma_mul_div_split(x: int, y: int, d: int)
    requires
        0 <= x,
        0 <= y,
        0 < d,
    ensures
        (x * y) / d == (x / d) * y + ((x % d) * y) / d,
{
    let q = x / d;
    let rm = x % d;
    lemma_fundamental_div_mod(x, d);
    assert(x * y == (q * y) * d + rm * y) by (nonlinear_arith)
        requires
            x == d * q + rm,
    ;
    lemma_mod_pos_bound(x, d);
    lemma_div_pos_is_pos(x, d);
    lemma_mul_nonnegative(rm, y);
    lemma_mul_nonnegative(q, y);
    lemma_hoist_over_denominator(rm * y, q * y, d as nat);
}

/// Computes `floor((x * y) / d)` exactly without a double-width product:
/// the multiplier is consumed bit by bit while every partial product is
/// kept reduced modulo `d`.
fn mul_div_raw(x: u128, y: u128, d: u128) -> (r: u128)
    requires
        d != 0,
        d <= u128::MAX / 2,
        (x * y) / (d as int) <= u128::MAX,
    ensures
        r == (x * y) / (d as int),
{
    let q1: u128 = x / d;
    let r1: u128 = x % d;
    proof {
        lemma_mod_pos_bound(x as int, d as int);
        lemma_mul_div_split(x as int, y as int, d as int);
        // both summands of the split are bounded by the final quotient
        lemma_div_pos_is_pos((r1 * y) as int, d as int);
        lemma_mul_nonnegative(q1 as int, y as int);
    }
    let mut acc_q: u128 = 0;
    let mut acc_r: u128 = 0;
    let mut q_m: u128 = 0;
    let mut rem_m: u128 = r1;
    let mut y_rem: u128 = y;
    while y_rem > 0
        invariant
            0 < d <= u128::MAX / 2,
            acc_r < d,
            rem_m < d,
            acc_q * d + acc_r + (q_m * d + rem_m) * y_rem == r1 * y,
            (r1 * y) / (d as int) <= u128::MAX,
        decreases y_rem,
    {
        let ghost m: int = q_m * d + rem_m;
        let ghost y0: int = y_rem as int;
        if y_rem % 2 == 1 {
            proof {
                assert(acc_q * d + acc_r + m <= r1 * y) by (nonlinear_arith)
                    requires
                        acc_q * d + acc_r + m * y0 == r1 * y,
                        y0 >= 1,
                        m >= 0,
                ;
                assert((acc_q + q_m) * d <= acc_q * d + acc_r + m) by (nonlinear_arith)
                    requires
                        m == q_m * d + rem_m,
                        acc_r >= 0,
                        rem_m >= 0,
                        d > 0,
                        acc_q >= 0,
                        q_m >= 0,
                ;
                lemma_quotient_bound((acc_q + q_m) as int, d as int, (r1 * y) as int);
                if acc_r + rem_m >= d {
                    assert((acc_q + q_m + 1) * d <= acc_q * d + acc_r + m) by (nonlinear_arith)
                        requires
                            m == q_m * d + rem_m,
                            acc_r + rem_m >= d,
                            d > 0,
                            acc_q >= 0,
                            q_m >= 0,
                    ;
                    lemma_quotient_bound((acc_q + q_m + 1) as int, d as int, (r1 * y) as int);
                }
                // folding one copy of m into the accumulator keeps the sum
                if acc_r + rem_m >= d {
                    assert((acc_q + q_m + 1) * d + ((acc_r + rem_m) - d) + m * (y0 - 1) == r1
                        * y) by (nonlinear_arith)
                        requires
                            acc_q * d + acc_r + m * y0 == r1 * y,
                            m == q_m * d + rem_m,
                    ;
                } else {
                    assert((acc_q + q_m) * d + (acc_r + rem_m) + m * (y0 - 1) == r1 * y)
                        by (nonlinear_arith)
                        requires
                            acc_q * d + acc_r + m * y0 == r1 * y,
                            m == q_m * d + rem_m,
                    ;
                }
            }
            let t: u128 = acc_r + rem_m;
            if t >= d {
                acc_q = acc_q + q_m + 1;
                acc_r = t - d;
            } else {
                acc_q = acc_q + q_m;
                acc_r = t;
            }
            proof {
                assert(acc_q * d + acc_r + m * (y0 - 1) == r1 * y);
            }
        }
        let ghost y1: int = if y0 % 2 == 1 {
            y0 - 1
        } else {
            y0
        };
        proof {
            assert(acc_q * d + acc_r + m * y1 == r1 * y);
            assert(y1 == 2 * (y0 / 2));
        }
        y_rem = y_rem / 2;
        if y_rem > 0 {
            proof {
                // after halving, the summand must double; bound it first
                assert(m * y1 == (2 * m) * (y1 / 2)) by (nonlinear_arith)
                    requires
                        y1 % 2 == 0,
                ;
                assert(2 * m <= (2 * m) * (y1 / 2)) by (nonlinear_arith)
                    requires
                        y1 / 2 >= 1,
                        m >= 0,
                ;
                assert((2 * m) * (y1 / 2) <= r1 * y) by (nonlinear_arith)
                    requires
                        acc_q * d + acc_r + (2 * m) * (y1 / 2) == r1 * y,
                        acc_q >= 0,
                        acc_r >= 0,
                        d > 0,
                ;
                assert((q_m + q_m) * d <= 2 * m) by (nonlinear_arith)
                    requires
                        m == q_m * d + rem_m,
                        rem_m >= 0,
                        q_m >= 0,
                        d > 0,
                ;
                lemma_quotient_bound((q_m + q_m) as int, d as int, (r1 * y) as int);
                if rem_m + rem_m >= d {
                    assert((q_m + q_m + 1) * d <= 2 * m) by (nonlinear_arith)
                        requires
                            m == q_m * d + rem_m,
                            rem_m + rem_m >= d,
                            q_m >= 0,
                            d > 0,
                    ;
                    lemma_quotient_bound((q_m + q_m + 1) as int, d as int, (r1 * y) as int);
                    assert((q_m + q_m + 1) * d + ((rem_m + rem_m) - d) == 2 * m)
                        by (nonlinear_arith)
                        requires
                            m == q_m * d + rem_m,
                    ;
                } else {
                    assert((q_m + q_m) * d + (rem_m + rem_m) == 2 * m) by (nonlinear_arith)
                        requires
                            m == q_m * d + rem_m,
                    ;
                }
            }
            let t2: u128 = rem_m + rem_m;
            if t2 >= d {
                q_m = q_m + q_m + 1;
                rem_m = t2 - d;
            } else {
                q_m = q_m + q_m;
                rem_m = t2;
            }
            proof {
                assert(q_m * d + rem_m == 2 * m);
                assert((q_m * d + rem_m) * y_rem == m * y1) by (nonlinear_arith)
                    requires
                        q_m * d + rem_m == 2 * m,
                        y_rem == y1 / 2,
                        y1 % 2 == 0,
                ;
            }
        } else {
            proof {
                assert(y1 == 0);
                assert(m * y1 == 0) by (nonlinear_arith)
                    requires
                        y1 == 0,
                ;
            }
        }
    }
    proof {
        // the accumulator now witnesses the division of r1 * y by d
        assert((q_m * d + rem_m) * y_rem == 0) by (nonlinear_arith)
            requires
                y_rem == 0,
        ;
        lemma_fundamental_div_mod_converse(
            (r1 * y) as int,
            d as int,
            acc_q as int,
            acc_r as int,
        );
        lemma_mul_div_split(x as int, y as int, d as int);
        assert(q1 * y <= (x * y) / (d as int)) by {
            lemma_div_pos_is_pos((r1 * y) as int, d as int);
        }
    }
    q1 * y + acc_q
}

/// At one precision, the value order is exactly the raw order.
pub proof fn lemma_same_precision_order(a: FixedDecimal, b: FixedDecimal)
    requires
        a.precision == b.precision,
    ensures
        a.le_spec(b) <==> a.raw <= b.raw,
        a.lt_spec(b) <==> a.raw < b.raw,
{
    lemma_pow10_pos(a.precision as nat);
    lemma_cmp_same_scale(a.raw as nat, b.raw as nat, pow10(a.precision as nat));
}

/// The value order given by cross-multiplied comparison is transitive,
/// also across three different precisions.
pub proof fn lemma_value_order_trans(a: FixedDecimal, b: FixedDecimal, c: FixedDecimal)
    ensures
        a.le_spec(b) && b.le_spec(c) ==> a.le_spec(c),
        a.lt_spec(b) && b.le_spec(c) ==> a.lt_spec(c),
        a.le_spec(b) && b.lt_spec(c) ==> a.lt_spec(c),
{
    lemma_pow10_pos(a.precision as nat);
    lemma_pow10_pos(b.precision as nat);
    lemma_pow10_pos(c.precision as nat);
    let pa = pow10(a.precision as nat);
    let pb = pow10(b.precision as nat);
    let pc = pow10(c.precision as nat);
    if a.le_spec(b) && b.le_spec(c) {
        assert(a.raw * pc <= c.raw * pa) by (nonlinear_arith)
            requires
                pa >= 1 && pb >= 1 && pc >= 1,
                a.raw * pb <= b.raw * pa,
                b.raw * pc <= c.raw * pb,
        ;
    }
    if a.lt_spec(b) && b.le_spec(c) {
        assert(a.raw * pc < c.raw * pa) by (nonlinear_arith)
            requires
                pa >= 1 && pb >= 1 && pc >= 1,
                a.raw * pb < b.raw * pa,
                b.raw * pc <= c.raw * pb,
        ;
    }
    if a.le_spec(b) && b.lt_spec(c) {
        assert(a.raw * pc < c.raw * pa) by (nonlinear_arith)
            requires
                pa >= 1 && pb >= 1 && pc >= 1,
                a.raw * pb <= b.raw * pa,
                b.raw * pc < c.raw * pb,
        ;
    }
}

/// At one scale, value order and raw order agree.
proof fn lemma_cmp_same_scale(a: nat, b: nat, k: nat)
    requires
        k >= 1,
    ensures
        (a * k < b * k) <==> (a < b),
        (a * k <= b * k) <==> (a <= b),
{
    assert((a * k < b * k) <==> (a < b)) by (nonlinear_arith)
        requires
            k >= 1,
    ;
    assert((a * k <= b * k) <==> (a <= b)) by (nonlinear_arith)
        requires
            k >= 1,
    ;
}

/// Cross-multiplied comparison reduces to comparing the scaled low-precision
/// payload with the high-precision payload.
proof fn lemma_cmp_scaled(lo: nat, hi: nat, d: nat, p: nat)
    ensures
        (lo * pow10(d + p) < hi * pow10(p)) <==> (lo * pow10(d) < hi),
        (lo * pow10(d + p) <= hi * pow10(p)) <==> (lo * pow10(d) <= hi),
{
    lemma_pow10_adds(d, p);
    lemma_pow10_pos(p);
    let k = pow10(p);
    let s = lo * pow10(d);
    assert(lo * (pow10(d) * k) == (lo * pow10(d)) * k) by (nonlinear_arith);
    lemma_cmp_same_scale(s, hi, k);
}

} // verus!
