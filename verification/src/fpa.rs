//! Fixed point arithmetic.
//!
//! Fractional numbers stored as scaled integers (`raw / 2^FPA_PREC`), so the
//! simulation gets deterministic, platform-independent arithmetic instead of
//! floating point.  Every operation is total: results that do not fit the
//! backing integer wrap to its width (two's complement), and division by zero
//! is reported as an explicit error rather than trapping.

use vstd::prelude::*;
use vstd::arithmetic::div_mod::lemma_mod_multiples_vanish;
use vstd::arithmetic::div_mod::lemma_small_mod;
use vstd::wrapping::i16_specs;
use vstd::wrapping::i32_specs;

verus! {

/// Bits after the binary point.
pub const FPA_PREC: usize = 6;

/// The scale factor between a raw stored integer and the value it encodes
/// (equal to `2^FPA_PREC`): a raw integer `r` encodes the number `r / 64`.
pub const FPA_MUL_INT: i32 = 64;

/// Truncating (round toward zero) integer division, the semantics of the
/// machine's signed division instruction.  Meaningful only for `d != 0`.
pub open spec fn div_trunc(x: int, d: int) -> int {
    if x == 0 {
        0
    } else if x > 0 && d > 0 {
        x / d
    } else if x < 0 && d < 0 {
        (x * -1) / (d * -1)
    } else if x < 0 {
        ((x * -1) / d) * -1
    } else {
        (x / (d * -1)) * -1
    }
}

/// An arbitrary integer reduced to the value range of `i32` (two's
/// complement wrap-around).
pub open spec fn wrap32(x: int) -> int {
    i32_specs::signed_crop(x) as int
}

/// An arbitrary integer reduced to the value range of `i16` (two's
/// complement wrap-around).
pub open spec fn wrap16(x: int) -> int {
    i16_specs::signed_crop(x) as int
}

/// Reduce a wide intermediate to `i32` range, wrapping as a two's complement
/// cast would.
pub(crate) fn crop_to_i32(v: i64) -> (r: i32)
    ensures
        r as int == wrap32(v as int),
{
    let mut x: i64 = v;
    while x > 0x7fff_ffffi64
        invariant
            wrap32(x as int) == wrap32(v as int),
        decreases x as int + 0x8000_0000,
    {
        proof {
            lemma_mod_multiples_vanish(-1, x - 0x1_0000_0000, 0x1_0000_0000);
        }
        x = x - 0x1_0000_0000;
    }
    while x < -0x8000_0000i64
        invariant
            wrap32(x as int) == wrap32(v as int),
            x <= i32::MAX as i64,
        decreases 0x7fff_ffff - x as int,
    {
        proof {
            lemma_mod_multiples_vanish(1, x as int, 0x1_0000_0000);
        }
        x = x + 0x1_0000_0000;
    }
    proof {
        if x >= 0 {
            lemma_small_mod(x as nat, 0x1_0000_0000nat);
        } else {
            lemma_mod_multiples_vanish(1, x as int, 0x1_0000_0000);
            lemma_small_mod((x + 0x1_0000_0000) as nat, 0x1_0000_0000nat);
        }
    }
    x as i32
}

/// Reduce a wide intermediate to `i16` range, wrapping as a two's complement
/// cast would.
pub(crate) fn crop_to_i16(v: i32) -> (r: i16)
    ensures
        r as int == wrap16(v as int),
{
    let mut x: i32 = v;
    while x > 0x7fffi32
        invariant
            wrap16(x as int) == wrap16(v as int),
        decreases x as int + 0x8000,
    {
        proof {
            lemma_mod_multiples_vanish(-1, x - 0x1_0000, 0x1_0000);
        }
        x = x - 0x1_0000;
    }
    while x < -0x8000i32
        invariant
            wrap16(x as int) == wrap16(v as int),
            x <= i16::MAX as i32,
        decreases 0x7fff - x as int,
    {
        proof {
            lemma_mod_multiples_vanish(1, x as int, 0x1_0000);
        }
        x = x + 0x1_0000;
    }
    proof {
        if x >= 0 {
            lemma_small_mod(x as nat, 0x1_0000nat);
        } else {
            lemma_mod_multiples_vanish(1, x as int, 0x1_0000);
            lemma_small_mod((x + 0x1_0000) as nat, 0x1_0000nat);
        }
    }
    x as i16
}

/// Truncating signed division on `i64`, computed through unsigned
/// sign-magnitude division.
fn div_trunc_i64(x: i64, d: i64) -> (r: i64)
    requires
        d != 0,
        !(x == i64::MIN && d == -1),
    ensures
        r as int == div_trunc(x as int, d as int),
{
    let xa: u64 = if x < 0 {
        (-(x as i128)) as u64
    } else {
        x as u64
    };
    let da: u64 = if d < 0 {
        (-(d as i128)) as u64
    } else {
        d as u64
    };
    let q: u64 = xa / da;
    proof {
        vstd::arithmetic::div_mod::lemma_div_nonincreasing(xa as int, da as int);
        vstd::arithmetic::div_mod::lemma_div_pos_is_pos(xa as int, da as int);
        vstd::arithmetic::div_mod::lemma_div_basics(xa as int);
        if da > 1 {
            vstd::arithmetic::div_mod::lemma_div_is_ordered_by_denominator(
                xa as int,
                2,
                da as int,
            );
        }
    }
    if (x < 0) != (d < 0) {
        if q >= 0x8000_0000_0000_0000u64 {
            // only reachable for the minimum dividend divided by one
            i64::MIN
        } else {
            -(q as i64)
        }
    } else {
        q as i64
    }
}

/**** 32-bit ****/

/// 32 bit fixed point number.  Because of precision, magnitudes are limited
/// to 25 bits, i.e. values up to `2^25`.
#[derive(Clone, Copy, Debug, PartialEq, Eq, PartialOrd, Ord, Hash, Structural)]
pub struct Fx32(pub i32);

/// The raw value of the sum of two 32-bit fixed point numbers.
pub open spec fn fx32_add_raw(a: int, b: int) -> int {
    wrap32(a + b)
}

/// The raw value of the difference of two 32-bit fixed point numbers.
pub open spec fn fx32_sub_raw(a: int, b: int) -> int {
    wrap32(a - b)
}

/// The raw value of the product of two 32-bit fixed point numbers: the wide
/// product is rescaled by the precision multiplier before narrowing.
pub open spec fn fx32_mul_raw(a: int, b: int) -> int {
    wrap32(div_trunc(a * b, 64))
}

/// The raw value of the quotient of two 32-bit fixed point numbers: the
/// dividend is upscaled by the precision multiplier before dividing.
/// Meaningful only for `b != 0`.
pub open spec fn fx32_div_raw(a: int, b: int) -> int {
    wrap32(div_trunc(a * 64, b))
}

impl Fx32 {
    /// The fixed point encoding of a (small enough) integer.
    pub fn from_int(v: i32) -> (r: Fx32)
        requires
            -0x200_0000 <= v < 0x200_0000,
        ensures
            r.0 == v * 64,
    {
        Fx32(v * 64)
    }

    /// Narrowing conversion: the raw integer wraps to the 16-bit width
    /// without rescaling, since both widths share the same precision.
    pub fn to_fx16(self) -> (r: Fx16)
        ensures
            r.0 as int == wrap16(self.0 as int),
    {
        Fx16(crop_to_i16(self.0))
    }

    /// Wrapping addition on the raw scaled integers.
    pub fn add(self, rhs: Fx32) -> (r: Fx32)
        ensures
            r.0 as int == fx32_add_raw(self.0 as int, rhs.0 as int),
    {
        Fx32(crop_to_i32(self.0 as i64 + rhs.0 as i64))
    }

    /// Wrapping subtraction on the raw scaled integers.
    pub fn sub(self, rhs: Fx32) -> (r: Fx32)
        ensures
            r.0 as int == fx32_sub_raw(self.0 as int, rhs.0 as int),
    {
        Fx32(crop_to_i32(self.0 as i64 - rhs.0 as i64))
    }

    /// Negation; the minimum raw value wraps to itself.
    pub fn neg(self) -> (r: Fx32)
        ensures
            r.0 as int == wrap32(-(self.0 as int)),
    {
        proof {
            if self.0 == i32::MIN {
                lemma_mod_multiples_vanish(1, i32::MIN as int, 0x1_0000_0000);
                lemma_small_mod(0x8000_0000nat, 0x1_0000_0000nat);
            } else if self.0 > 0 {
                lemma_mod_multiples_vanish(1, -(self.0 as int), 0x1_0000_0000);
                lemma_small_mod((0x1_0000_0000 - self.0) as nat, 0x1_0000_0000nat);
            } else {
                lemma_small_mod((-(self.0 as int)) as nat, 0x1_0000_0000nat);
            }
        }
        if self.0 == i32::MIN {
            Fx32(i32::MIN)
        } else {
            Fx32(-self.0)
        }
    }

    /// Absolute value of the raw integer; the minimum raw value wraps to
    /// itself.
    pub fn abs(self) -> (r: Fx32)
        ensures
            self.0 == i32::MIN ==> r.0 == i32::MIN,
            self.0 != i32::MIN ==> r.0 as int == vstd::math::abs(self.0 as int),
    {
        if self.0 == i32::MIN {
            Fx32(i32::MIN)
        } else if self.0 < 0 {
            Fx32(-self.0)
        } else {
            self
        }
    }

    /// Rescaling multiplication: the wide product of the raw integers,
    /// divided by the precision multiplier.
    pub fn mul(self, rhs: Fx32) -> (r: Fx32)
        ensures
            r.0 as int == fx32_mul_raw(self.0 as int, rhs.0 as int),
    {
        proof {
            assert((self.0 as int) * (rhs.0 as int) <= 0x4000_0000_0000_0000
                && (self.0 as int) * (rhs.0 as int) >= -0x4000_0000_0000_0000) by (nonlinear_arith)
                requires
                    -0x8000_0000 <= self.0 <= 0x7fff_ffff,
                    -0x8000_0000 <= rhs.0 <= 0x7fff_ffff,
            ;
        }
        let p: i64 = (self.0 as i64) * (rhs.0 as i64);
        Fx32(crop_to_i32(div_trunc_i64(p, 64)))
    }

    /// Upscaling division.  Division by a zero-valued number is reported as
    /// an explicit error instead of trapping.
    pub fn div(self, rhs: Fx32) -> (r: Result<Fx32, FxError>)
        ensures
            rhs.0 == 0 <==> r is Err,
            r is Err ==> r == Err::<Fx32, FxError>(FxError::DivideByZero),
            rhs.0 != 0 ==> (r matches Ok(v) && v.0 as int == fx32_div_raw(
                self.0 as int,
                rhs.0 as int,
            )),
    {
        if rhs.0 == 0 {
            return Err(FxError::DivideByZero);
        }
        let p: i64 = (self.0 as i64) * 64;
        Ok(Fx32(crop_to_i32(div_trunc_i64(p, rhs.0 as i64))))
    }

    /// Repeated rescaling multiplication of the raw value with itself.
    /// Exponents 0 and 1 both return the value unchanged.  The caller must
    /// keep the intermediate products inside the wide integer range; the
    /// final narrowing wraps.
    pub fn powi(self, exp: usize) -> (r: Fx32)
        requires
            forall|k: nat|
                1 <= k < exp ==> -0x8000_0000_0000_0000 <= #[trigger] fx32_powi_raw(
                    self.0 as int,
                    k,
                ) * self.0 <= 0x7fff_ffff_ffff_ffff,
        ensures
            r.0 as int == wrap32(fx32_powi_raw(self.0 as int, exp as nat)),
    {
        let mut total: i64 = self.0 as i64;
        let mut i: usize = 1;
        while i < exp
            invariant
                1 <= i,
                exp >= 1 ==> i <= exp,
                exp < 1 ==> i == 1,
                total as int == fx32_powi_raw(self.0 as int, i as nat),
                forall|k: nat|
                    1 <= k < exp ==> -0x8000_0000_0000_0000 <= #[trigger] fx32_powi_raw(
                        self.0 as int,
                        k,
                    ) * self.0 <= 0x7fff_ffff_ffff_ffff,
            decreases exp - i,
        {
            assert(-0x8000_0000_0000_0000 <= fx32_powi_raw(self.0 as int, i as nat) * self.0
                <= 0x7fff_ffff_ffff_ffff);
            let p: i64 = total * (self.0 as i64);
            total = div_trunc_i64(p, 64);
            i = i + 1;
        }
        Fx32(crop_to_i32(total))
    }

    /// Floor square root in the fixed point encoding: the integer square
    /// root of the raw value upscaled by the precision multiplier.  A
    /// negative input is reported as an explicit error.
    pub fn sqrt(self) -> (r: Result<Fx32, FxError>)
        ensures
            self.0 < 0 <==> r is Err,
            r is Err ==> r == Err::<Fx32, FxError>(FxError::NegativeSqrt),
            self.0 >= 0 ==> (r matches Ok(v) && v.0 as int == sqrt_floor(64 * self.0)),
    {
        if self.0 < 0 {
            return Err(FxError::NegativeSqrt);
        }
        let n: u64 = (64i64 * (self.0 as i64)) as u64;
        let s: u64 = isqrt_u64(n);
        proof {
            assert(s < 0x80_0000) by (nonlinear_arith)
                requires
                    s * s <= n,
                    n < 0x40_0000_0000,
            ;
            lemma_sqrt_floor_unique(n as int, s as int);
        }
        Ok(Fx32(s as i32))
    }
}

/**** 16-bit ****/

/// 16 bit fixed point number.  Because of precision, magnitudes are limited
/// to 9 bits, i.e. values up to `2^9`.
#[derive(Clone, Copy, Debug, PartialEq, Eq, PartialOrd, Ord, Hash, Structural)]
pub struct Fx16(pub i16);

/// The raw value of the sum of two 16-bit fixed point numbers.
pub open spec fn fx16_add_raw(a: int, b: int) -> int {
    wrap16(a + b)
}

/// The raw value of the difference of two 16-bit fixed point numbers.
pub open spec fn fx16_sub_raw(a: int, b: int) -> int {
    wrap16(a - b)
}

/// The raw value of the product of two 16-bit fixed point numbers.
pub open spec fn fx16_mul_raw(a: int, b: int) -> int {
    wrap16(div_trunc(a * b, 64))
}

/// The raw value of the quotient of two 16-bit fixed point numbers.
/// Meaningful only for `b != 0`.
pub open spec fn fx16_div_raw(a: int, b: int) -> int {
    wrap16(div_trunc(a * 64, b))
}

impl Fx16 {
    /// The fixed point encoding of a (small enough) integer.
    pub fn from_int(v: i16) -> (r: Fx16)
        requires
            -0x200 <= v < 0x200,
        ensures
            r.0 == v * 64,
    {
        Fx16(v * 64)
    }

    /// Widening conversion: the raw integer is sign-extended, not rescaled,
    /// since both widths share the same precision.
    pub fn to_fx32(self) -> (r: Fx32)
        ensures
            r.0 as int == self.0 as int,
    {
        Fx32(self.0 as i32)
    }

    /// Wrapping addition on the raw scaled integers.
    pub fn add(self, rhs: Fx16) -> (r: Fx16)
        ensures
            r.0 as int == fx16_add_raw(self.0 as int, rhs.0 as int),
    {
        Fx16(crop_to_i16(self.0 as i32 + rhs.0 as i32))
    }

    /// Wrapping subtraction on the raw scaled integers.
    pub fn sub(self, rhs: Fx16) -> (r: Fx16)
        ensures
            r.0 as int == fx16_sub_raw(self.0 as int, rhs.0 as int),
    {
        Fx16(crop_to_i16(self.0 as i32 - rhs.0 as i32))
    }

    /// Negation; the minimum raw value wraps to itself.
    pub fn neg(self) -> (r: Fx16)
        ensures
            r.0 as int == wrap16(-(self.0 as int)),
    {
        proof {
            if self.0 == i16::MIN {
                lemma_mod_multiples_vanish(1, i16::MIN as int, 0x1_0000);
                lemma_small_mod(0x8000nat, 0x1_0000nat);
            } else if self.0 > 0 {
                lemma_mod_multiples_vanish(1, -(self.0 as int), 0x1_0000);
                lemma_small_mod((0x1_0000 - self.0) as nat, 0x1_0000nat);
            } else {
                lemma_small_mod((-(self.0 as int)) as nat, 0x1_0000nat);
            }
        }
        if self.0 == i16::MIN {
            Fx16(i16::MIN)
        } else {
            Fx16(-self.0)
        }
    }

    /// Absolute value of the raw integer; the minimum raw value wraps to
    /// itself.
    pub fn abs(self) -> (r: Fx16)
        ensures
            self.0 == i16::MIN ==> r.0 == i16::MIN,
            self.0 != i16::MIN ==> r.0 as int == vstd::math::abs(self.0 as int),
    {
        if self.0 == i16::MIN {
            Fx16(i16::MIN)
        } else if self.0 < 0 {
            Fx16(-self.0)
        } else {
            self
        }
    }

    /// Rescaling multiplication.
    pub fn mul(self, rhs: Fx16) -> (r: Fx16)
        ensures
            r.0 as int == fx16_mul_raw(self.0 as int, rhs.0 as int),
    {
        proof {
            assert((self.0 as int) * (rhs.0 as int) <= 0x4000_0000
                && (self.0 as int) * (rhs.0 as int) >= -0x4000_0000) by (nonlinear_arith)
                requires
                    -0x8000 <= self.0 <= 0x7fff,
                    -0x8000 <= rhs.0 <= 0x7fff,
            ;
        }
        let p: i64 = (self.0 as i64) * (rhs.0 as i64);
        let q: i64 = div_trunc_i64(p, 64);
        Fx16(crop_to_i16(q as i32))
    }

    /// Upscaling division, with division by zero reported as an explicit
    /// error.
    pub fn div(self, rhs: Fx16) -> (r: Result<Fx16, FxError>)
        ensures
            rhs.0 == 0 <==> r is Err,
            r is Err ==> r == Err::<Fx16, FxError>(FxError::DivideByZero),
            rhs.0 != 0 ==> (r matches Ok(v) && v.0 as int == fx16_div_raw(
                self.0 as int,
                rhs.0 as int,
            )),
    {
        if rhs.0 == 0 {
            return Err(FxError::DivideByZero);
        }
        let p: i64 = (self.0 as i64) * 64;
        let q: i64 = div_trunc_i64(p, rhs.0 as i64);
        Ok(Fx16(crop_to_i16(q as i32)))
    }

    /// Repeated rescaling multiplication, as for the 32-bit width.
    pub fn powi(self, exp: usize) -> (r: Fx16)
        requires
            forall|k: nat|
                1 <= k < exp ==> -0x8000_0000 <= #[trigger] fx16_powi_raw(
                    self.0 as int,
                    k,
                ) * self.0 <= 0x7fff_ffff,
        ensures
            r.0 as int == wrap16(fx16_powi_raw(self.0 as int, exp as nat)),
    {
        let mut total: i32 = self.0 as i32;
        let mut i: usize = 1;
        while i < exp
            invariant
                1 <= i,
                exp >= 1 ==> i <= exp,
                exp < 1 ==> i == 1,
                total as int == fx16_powi_raw(self.0 as int, i as nat),
                forall|k: nat|
                    1 <= k < exp ==> -0x8000_0000 <= #[trigger] fx16_powi_raw(
                        self.0 as int,
                        k,
                    ) * self.0 <= 0x7fff_ffff,
            decreases exp - i,
        {
            assert(-0x8000_0000 <= fx16_powi_raw(self.0 as int, i as nat) * self.0
                <= 0x7fff_ffff);
            let p: i64 = (total as i64) * (self.0 as i64);
            let q: i64 = div_trunc_i64(p, 64);
            total = q as i32;
            i = i + 1;
        }
        Fx16(crop_to_i16(total))
    }

    /// Floor square root in the fixed point encoding, with negative inputs
    /// reported as an explicit error.
    pub fn sqrt(self) -> (r: Result<Fx16, FxError>)
        ensures
            self.0 < 0 <==> r is Err,
            r is Err ==> r == Err::<Fx16, FxError>(FxError::NegativeSqrt),
            self.0 >= 0 ==> (r matches Ok(v) && v.0 as int == sqrt_floor(64 * self.0)),
    {
        if self.0 < 0 {
            return Err(FxError::NegativeSqrt);
        }
        let n: u64 = (64i32 * (self.0 as i32)) as u64;
        let s: u64 = isqrt_u64(n);
        proof {
            assert(s < 0x800) by (nonlinear_arith)
                requires
                    s * s <= n,
                    n < 0x40_0000,
            ;
            lemma_sqrt_floor_unique(n as int, s as int);
        }
        Ok(Fx16(s as i16))
    }
}

/// Error conditions of fixed point arithmetic.
#[derive(Clone, Copy, Debug, PartialEq, Eq, Structural)]
pub enum FxError {
    /// Division by a zero-valued number.
    DivideByZero,
    /// Square root of a negative number.
    NegativeSqrt,
}

/// The raw value of a fixed point number raised to a small integer power by
/// repeated rescaling multiplication.  Exponents 0 and 1 are the value
/// itself.
pub open spec fn fx32_powi_raw(a: int, e: nat) -> int
    decreases e,
{
    if e <= 1 {
        a
    } else {
        div_trunc(fx32_powi_raw(a, (e - 1) as nat) * a, 64)
    }
}

/// The 16-bit counterpart of `fx32_powi_raw`.
pub open spec fn fx16_powi_raw(a: int, e: nat) -> int
    decreases e,
{
    if e <= 1 {
        a
    } else {
        div_trunc(fx16_powi_raw(a, (e - 1) as nat) * a, 64)
    }
}

/// Whether `r` is the floor of the square root of `n`.
pub open spec fn is_sqrt_floor(n: int, r: int) -> bool {
    0 <= r && r * r <= n && n < (r + 1) * (r + 1)
}

/// The floor of the square root of a non-negative integer.
pub open spec fn sqrt_floor(n: int) -> int {
    choose|r: int| is_sqrt_floor(n, r)
}

/// The floor square root is uniquely determined by its defining bounds.
pub proof fn lemma_sqrt_floor_unique(n: int, r: int)
    requires
        0 <= r,
        r * r <= n,
        n < (r + 1) * (r + 1),
    ensures
        sqrt_floor(n) == r,
{
    assert(exists|q: int| is_sqrt_floor(n, q)) by {
        assert(is_sqrt_floor(n, r));
    }
    let s = sqrt_floor(n);
    assert(is_sqrt_floor(n, s));
    if s < r {
        assert((s + 1) * (s + 1) <= r * r) by (nonlinear_arith)
            requires
                0 <= s,
                s + 1 <= r,
        ;
    }
    if r < s {
        assert((r + 1) * (r + 1) <= s * s) by (nonlinear_arith)
            requires
                0 <= r,
                r + 1 <= s,
        ;
    }
}

/// Every non-negative integer has a floor square root, so the `choose`
/// inside `sqrt_floor` picks a value with the defining bounds.
pub proof fn lemma_sqrt_floor_exists(n: int)
    requires
        0 <= n,
    ensures
        is_sqrt_floor(n, sqrt_floor(n)),
    decreases n,
{
    if n == 0 {
        assert(is_sqrt_floor(0, 0));
    } else {
        lemma_sqrt_floor_exists(n - 1);
        let s = sqrt_floor(n - 1);
        assert(is_sqrt_floor(n - 1, s));
        if (s + 1) * (s + 1) <= n {
            assert(is_sqrt_floor(n, s + 1)) by (nonlinear_arith)
                requires
                    0 <= s,
                    s * s <= n - 1,
                    n - 1 < (s + 1) * (s + 1),
                    (s + 1) * (s + 1) <= n,
            ;
        } else {
            assert(is_sqrt_floor(n, s));
        }
    }
    assert(exists|q: int| is_sqrt_floor(n, q));
    let w = sqrt_floor(n);
    assert(is_sqrt_floor(n, w));
}

/// The integer square root: the greatest integer whose square does not
/// exceed the argument.
pub fn isqrt_u64(n: u64) -> (r: u64)
    ensures
        r * r <= n,
        n < (r + 1) * (r + 1),
{
    let mut lo: u64 = 0;
    let mut hi: u64 = 0x1_0000_0000;
    while hi - lo > 1
        invariant
            lo < hi <= 0x1_0000_0000,
            lo * lo <= n,
            (n as int) < (hi as int) * (hi as int),
        decreases hi - lo,
    {
        let mid: u64 = lo + (hi - lo) / 2;
        proof {
            assert(mid * mid <= 0xffff_ffff_ffff_ffff) by (nonlinear_arith)
                requires
                    mid <= 0xffff_ffff,
            ;
        }
        let sq: u64 = mid * mid;
        if sq <= n {
            lo = mid;
        } else {
            hi = mid;
        }
    }
    lo
}

/// Two's complement wrap is invariant under shifts by the modulus.
proof fn lemma_wrap32_shift(x: int)
    ensures
        wrap32(x + 0x1_0000_0000) == wrap32(x),
        wrap32(x - 0x1_0000_0000) == wrap32(x),
{
    lemma_mod_multiples_vanish(1, x, 0x1_0000_0000);
    lemma_mod_multiples_vanish(-1, x, 0x1_0000_0000);
}

/// Two's complement wrap is the identity on values already in `i32` range.
proof fn lemma_wrap32_id(x: int)
    requires
        -0x8000_0000 <= x < 0x8000_0000,
    ensures
        wrap32(x) == x,
{
    if x >= 0 {
        lemma_small_mod(x as nat, 0x1_0000_0000nat);
    } else {
        lemma_mod_multiples_vanish(1, x, 0x1_0000_0000);
        lemma_small_mod((x + 0x1_0000_0000) as nat, 0x1_0000_0000nat);
    }
}

/// The 16-bit counterpart of `lemma_wrap32_shift`.
proof fn lemma_wrap16_shift(x: int)
    ensures
        wrap16(x + 0x1_0000) == wrap16(x),
        wrap16(x - 0x1_0000) == wrap16(x),
{
    lemma_mod_multiples_vanish(1, x, 0x1_0000);
    lemma_mod_multiples_vanish(-1, x, 0x1_0000);
}

/// The 16-bit counterpart of `lemma_wrap32_id`.
proof fn lemma_wrap16_id(x: int)
    requires
        -0x8000 <= x < 0x8000,
    ensures
        wrap16(x) == x,
{
    if x >= 0 {
        lemma_small_mod(x as nat, 0x1_0000nat);
    } else {
        lemma_mod_multiples_vanish(1, x, 0x1_0000);
        lemma_small_mod((x + 0x1_0000) as nat, 0x1_0000nat);
    }
}

/// Adding a number and then subtracting the same number returns the first
/// operand exactly, for every pair of 32-bit fixed point numbers: the two
/// wrap-arounds cancel.
pub proof fn lemma_fx32_add_sub_cancel(a: Fx32, b: Fx32)
    ensures
        fx32_sub_raw(fx32_add_raw(a.0 as int, b.0 as int), b.0 as int) == a.0 as int,
{
    let s = a.0 as int + b.0 as int;
    if s > 0x7fff_ffff {
        lemma_wrap32_shift(s - 0x1_0000_0000);
        lemma_wrap32_id(s - 0x1_0000_0000);
        lemma_wrap32_shift(a.0 as int - 0x1_0000_0000);
        lemma_wrap32_id(a.0 as int);
    } else if s < -0x8000_0000 {
        lemma_wrap32_shift(s);
        lemma_wrap32_id(s + 0x1_0000_0000);
        lemma_wrap32_shift(a.0 as int);
        lemma_wrap32_id(a.0 as int);
    } else {
        lemma_wrap32_id(s);
        lemma_wrap32_id(a.0 as int);
    }
}

/// Multiplying by the fixed point encoding of one (raw value 64) returns
/// the operand exactly, for every 32-bit fixed point number.
pub proof fn lemma_fx32_mul_one(a: Fx32)
    ensures
        fx32_mul_raw(a.0 as int, 64) == a.0 as int,
{
    let x = a.0 as int;
    if x > 0 {
        vstd::arithmetic::div_mod::lemma_div_multiples_vanish(x, 64);
        assert(x * 64 == 64 * x) by (nonlinear_arith);
    } else if x < 0 {
        vstd::arithmetic::div_mod::lemma_div_multiples_vanish(-x, 64);
        assert((x * 64) * -1 == 64 * (-x)) by (nonlinear_arith);
    }
    lemma_wrap32_id(x);
}

/// Dividing a non-zero fixed point number by itself yields the encoding of
/// one (raw value 64) exactly.
pub proof fn lemma_fx32_div_self(a: Fx32)
    requires
        a.0 != 0,
    ensures
        fx32_div_raw(a.0 as int, a.0 as int) == 64,
{
    let x = a.0 as int;
    if x > 0 {
        vstd::arithmetic::div_mod::lemma_div_multiples_vanish(64, x);
        assert(x * 64 == x * 64) by (nonlinear_arith);
    } else {
        vstd::arithmetic::div_mod::lemma_div_multiples_vanish(64, -x);
        assert((x * 64) * -1 == (-x) * 64) by (nonlinear_arith);
    }
    lemma_wrap32_id(64);
}

/// The 16-bit counterpart of `lemma_fx32_add_sub_cancel`.
pub proof fn lemma_fx16_add_sub_cancel(a: Fx16, b: Fx16)
    ensures
        fx16_sub_raw(fx16_add_raw(a.0 as int, b.0 as int), b.0 as int) == a.0 as int,
{
    let s = a.0 as int + b.0 as int;
    if s > 0x7fff {
        lemma_wrap16_shift(s - 0x1_0000);
        lemma_wrap16_id(s - 0x1_0000);
        lemma_wrap16_shift(a.0 as int - 0x1_0000);
        lemma_wrap16_id(a.0 as int);
    } else if s < -0x8000 {
        lemma_wrap16_shift(s);
        lemma_wrap16_id(s + 0x1_0000);
        lemma_wrap16_shift(a.0 as int);
        lemma_wrap16_id(a.0 as int);
    } else {
        lemma_wrap16_id(s);
        lemma_wrap16_id(a.0 as int);
    }
}

/// The 16-bit counterpart of `lemma_fx32_mul_one`.
pub proof fn lemma_fx16_mul_one(a: Fx16)
    ensures
        fx16_mul_raw(a.0 as int, 64) == a.0 as int,
{
    let x = a.0 as int;
    if x > 0 {
        vstd::arithmetic::div_mod::lemma_div_multiples_vanish(x, 64);
        assert(x * 64 == 64 * x) by (nonlinear_arith);
    } else if x < 0 {
        vstd::arithmetic::div_mod::lemma_div_multiples_vanish(-x, 64);
        assert((x * 64) * -1 == 64 * (-x)) by (nonlinear_arith);
    }
    lemma_wrap16_id(x);
}

/// The 16-bit counterpart of `lemma_fx32_div_self`.
pub proof fn lemma_fx16_div_self(a: Fx16)
    requires
        a.0 != 0,
    ensures
        fx16_div_raw(a.0 as int, a.0 as int) == 64,
{
    let x = a.0 as int;
    if x > 0 {
        vstd::arithmetic::div_mod::lemma_div_multiples_vanish(64, x);
    } else {
        vstd::arithmetic::div_mod::lemma_div_multiples_vanish(64, -x);
        assert((x * 64) * -1 == (-x) * 64) by (nonlinear_arith);
    }
    lemma_wrap16_id(64);
}


} // verus!
