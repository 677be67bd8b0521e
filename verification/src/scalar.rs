//! The numeric value type every computation is carried out on.
//!
//! The original design is generic over a floating-point scalar contract;
//! here that contract is specialized to one concrete width: a fixed-point
//! value stored in an `i64`, with `FX_SCALE` units per 1.0.  Every
//! operation is total: results are truncated toward zero where a fraction
//! is lost and saturate at the representation's bounds, and the spec
//! functions below state the outcome of each operation exactly.

use vstd::prelude::*;

verus! {

/// Number of representation units per 1.0.
pub const FX_SCALE: i64 = 0x1_0000_0000;

/// Largest representable number of units.
pub const FX_HI: i64 = 0x7fff_ffff_ffff_ffff;

/// Smallest representable number of units.
pub const FX_LO: i64 = -0x7fff_ffff_ffff_ffff - 1;

/// Units per 1.0, as a mathematical integer.
pub open spec fn fx_scale() -> int {
    0x1_0000_0000
}

/// Lower bound of the representable range.
pub open spec fn fx_lo() -> int {
    -0x8000_0000_0000_0000
}

/// Upper bound of the representable range.
pub open spec fn fx_hi() -> int {
    0x7fff_ffff_ffff_ffff
}

/// Clamp a mathematical integer into the representable range.
pub open spec fn fx_sat(v: int) -> int {
    if v < fx_lo() {
        fx_lo()
    } else if v > fx_hi() {
        fx_hi()
    } else {
        v
    }
}

/// Magnitude of a mathematical integer.
pub open spec fn fx_abs(v: int) -> int {
    if v < 0 {
        -v
    } else {
        v
    }
}

/// Saturating addition on units.
pub open spec fn fx_add(a: int, b: int) -> int {
    fx_sat(a + b)
}

/// Saturating subtraction on units.
pub open spec fn fx_sub(a: int, b: int) -> int {
    fx_sat(a - b)
}

/// Saturating negation on units.
pub open spec fn fx_neg(a: int) -> int {
    fx_sat(-a)
}

/// Saturating magnitude on units.
pub open spec fn fx_abs_sat(a: int) -> int {
    fx_sat(fx_abs(a))
}

/// Minimum of two unit counts.
pub open spec fn fx_min(a: int, b: int) -> int {
    if a <= b {
        a
    } else {
        b
    }
}

/// Maximum of two unit counts.
pub open spec fn fx_max(a: int, b: int) -> int {
    if a >= b {
        a
    } else {
        b
    }
}

/// Fixed-point product: the exact product of the two values, truncated
/// toward zero at the representation's resolution, then saturated.
pub open spec fn fx_mul(a: int, b: int) -> int {
    if (a < 0) == (b < 0) {
        fx_sat((fx_abs(a) * fx_abs(b)) / fx_scale())
    } else {
        fx_sat(-((fx_abs(a) * fx_abs(b)) / fx_scale()))
    }
}

/// Fixed-point quotient, truncated toward zero and saturated.  Dividing
/// by zero saturates in the direction of the dividend's sign.
pub open spec fn fx_div(a: int, b: int) -> int {
    if b == 0 {
        if a > 0 {
            fx_hi()
        } else if a < 0 {
            fx_lo()
        } else {
            0
        }
    } else if (a < 0) == (b < 0) {
        fx_sat((fx_abs(a) * fx_scale()) / fx_abs(b))
    } else {
        fx_sat(-((fx_abs(a) * fx_scale()) / fx_abs(b)))
    }
}

/// Exact division of a value by a positive integer, truncated toward zero.
pub open spec fn fx_div_uint(a: int, k: int) -> int {
    if a < 0 {
        -(fx_abs(a) / k)
    } else {
        a / k
    }
}

/// Saturating product of a value and an integer.
pub open spec fn fx_mul_int(a: int, k: int) -> int {
    fx_sat(a * k)
}

/// The value representing a nonnegative integer, saturated.
pub open spec fn fx_from_uint(u: int) -> int {
    fx_sat(u * fx_scale())
}

/// Fixed-point number: `bits` counts units of `1 / FX_SCALE`.
#[derive(Clone, Copy, Debug, PartialEq, Eq, Structural)]
pub struct Scalar {
    /// Count of representation units.
    pub bits: i64,
}

impl View for Scalar {
    type V = int;

    open spec fn view(&self) -> int {
        self.bits as int
    }
}

/// Clamp a wide signed intermediate into the `i64` unit range.
fn clamp_i128(v: i128) -> (r: i64)
    ensures
        r as int == fx_sat(v as int),
{
    if v > FX_HI as i128 {
        FX_HI
    } else if v < FX_LO as i128 {
        FX_LO
    } else {
        v as i64
    }
}

/// Clamp a nonnegative wide intermediate into the `i64` unit range.
fn clamp_u128(v: u128) -> (r: i64)
    ensures
        r as int == fx_sat(v as int),
{
    if v > FX_HI as u128 {
        FX_HI
    } else {
        v as i64
    }
}

/// Clamp the negation of a nonnegative wide intermediate into the range.
fn clamp_neg_u128(v: u128) -> (r: i64)
    ensures
        r as int == fx_sat(-(v as int)),
{
    if v >= 0x8000_0000_0000_0000u128 {
        FX_LO
    } else {
        -(v as i64)
    }
}

/// Magnitude of a unit count, as an unsigned integer.
fn mag(x: i64) -> (r: u64)
    ensures
        r as int == fx_abs(x as int),
{
    if x >= 0 {
        x as u64
    } else {
        (-(x as i128)) as u64
    }
}

impl Scalar {
    /// The value zero.
    pub fn zero() -> (r: Scalar)
        ensures
            r@ == 0,
    {
        Scalar { bits: 0 }
    }

    /// The value one.
    pub fn one() -> (r: Scalar)
        ensures
            r@ == fx_scale(),
    {
        Scalar { bits: FX_SCALE }
    }

    /// Saturating addition.
    pub fn add(self, o: Scalar) -> (r: Scalar)
        ensures
            r@ == fx_add(self@, o@),
    {
        Scalar { bits: clamp_i128(self.bits as i128 + o.bits as i128) }
    }

    /// Saturating subtraction.
    pub fn sub(self, o: Scalar) -> (r: Scalar)
        ensures
            r@ == fx_sub(self@, o@),
    {
        Scalar { bits: clamp_i128(self.bits as i128 - o.bits as i128) }
    }

    /// Saturating negation.
    pub fn neg(self) -> (r: Scalar)
        ensures
            r@ == fx_neg(self@),
    {
        Scalar { bits: clamp_i128(-(self.bits as i128)) }
    }

    /// Saturating magnitude.
    pub fn abs(self) -> (r: Scalar)
        ensures
            r@ == fx_abs_sat(self@),
    {
        if self.bits < 0 {
            self.neg()
        } else {
            self
        }
    }

    /// Minimum by value.
    pub fn min(self, o: Scalar) -> (r: Scalar)
        ensures
            r@ == fx_min(self@, o@),
    {
        if self.bits <= o.bits {
            self
        } else {
            o
        }
    }

    /// Maximum by value.
    pub fn max(self, o: Scalar) -> (r: Scalar)
        ensures
            r@ == fx_max(self@, o@),
    {
        if self.bits >= o.bits {
            self
        } else {
            o
        }
    }

    /// Strict comparison by value.
    pub fn lt(self, o: Scalar) -> (r: bool)
        ensures
            r == (self@ < o@),
    {
        self.bits < o.bits
    }

    /// Nonstrict comparison by value.
    pub fn le(self, o: Scalar) -> (r: bool)
        ensures
            r == (self@ <= o@),
    {
        self.bits <= o.bits
    }

    /// Fixed-point multiplication, truncated toward zero and saturated.
    pub fn mul(self, o: Scalar) -> (r: Scalar)
        ensures
            r@ == fx_mul(self@, o@),
    {
        let ma = mag(self.bits);
        let mb = mag(o.bits);
        proof {
            assert(ma as int * mb as int <= 0x4000_0000_0000_0000_0000_0000_0000_0000int)
                by (nonlinear_arith)
                requires
                    0 <= (ma as int) <= 0x8000_0000_0000_0000int,
                    0 <= (mb as int) <= 0x8000_0000_0000_0000int,
            ;
        }
        let q: u128 = (ma as u128 * mb as u128) / 0x1_0000_0000u128;
        if (self.bits < 0) == (o.bits < 0) {
            Scalar { bits: clamp_u128(q) }
        } else {
            Scalar { bits: clamp_neg_u128(q) }
        }
    }

    /// Fixed-point division, truncated toward zero and saturated; a zero
    /// divisor saturates in the direction of the dividend's sign.
    pub fn div(self, o: Scalar) -> (r: Scalar)
        ensures
            r@ == fx_div(self@, o@),
    {
        if o.bits == 0 {
            if self.bits > 0 {
                Scalar { bits: FX_HI }
            } else if self.bits < 0 {
                Scalar { bits: FX_LO }
            } else {
                Scalar { bits: 0 }
            }
        } else {
            let ma = mag(self.bits);
            let mb = mag(o.bits);
            let q: u128 = (ma as u128 * 0x1_0000_0000u128) / (mb as u128);
            if (self.bits < 0) == (o.bits < 0) {
                Scalar { bits: clamp_u128(q) }
            } else {
                Scalar { bits: clamp_neg_u128(q) }
            }
        }
    }

    /// Exact division by a positive integer, truncated toward zero.
    pub fn div_uint(self, k: u64) -> (r: Scalar)
        requires
            k >= 1,
        ensures
            r@ == fx_div_uint(self@, k as int),
    {
        let m = mag(self.bits);
        let q: u128 = m as u128 / k as u128;
        if self.bits < 0 {
            Scalar { bits: clamp_neg_u128(q) }
        } else {
            Scalar { bits: clamp_u128(q) }
        }
    }

    /// Saturating multiplication by an integer.
    pub fn mul_int(self, k: i64) -> (r: Scalar)
        ensures
            r@ == fx_mul_int(self@, k as int),
    {
        proof {
            assert(-0x4000_0000_0000_0000_0000_0000_0000_0000int <= self.bits as int * k as int
                <= 0x4000_0000_0000_0000_0000_0000_0000_0000int) by (nonlinear_arith)
                requires
                    (-0x8000_0000_0000_0000int) <= (self.bits as int),
                    (self.bits as int) < 0x8000_0000_0000_0000int,
                    (-0x8000_0000_0000_0000int) <= (k as int),
                    (k as int) < 0x8000_0000_0000_0000int,
            ;
        }
        Scalar { bits: clamp_i128(self.bits as i128 * k as i128) }
    }

    /// The value of a nonnegative integer, saturated.
    pub fn from_uint(u: u64) -> (r: Scalar)
        ensures
            r@ == fx_from_uint(u as int),
    {
        Scalar { bits: clamp_u128(u as u128 * 0x1_0000_0000u128) }
    }
}

} // verus!
