//! Fixed point 2D vectors.
//!
//! Pairs of fixed point scalars with exact length and normalization
//! operations.  The sum of squares for a length is computed in a widened
//! integer domain, so it never overflows near the representable magnitude
//! limit, and normalizing the zero vector is defined to return the zero
//! vector rather than dividing by zero.

use vstd::prelude::*;
use crate::fpa::Fx16;
use crate::fpa::Fx32;
use crate::fpa::FxError;
use crate::fpa::fx16_add_raw;
use crate::fpa::fx16_div_raw;
use crate::fpa::fx16_mul_raw;
use crate::fpa::fx16_sub_raw;
use crate::fpa::fx32_add_raw;
use crate::fpa::fx32_div_raw;
use crate::fpa::fx32_mul_raw;
use crate::fpa::fx32_sub_raw;
use crate::fpa::div_trunc;
use crate::fpa::isqrt_u64;
use crate::fpa::lemma_sqrt_floor_exists;
use crate::fpa::lemma_sqrt_floor_unique;
use crate::fpa::sqrt_floor;
use crate::fpa::wrap16;
use crate::fpa::wrap32;

verus! {

/// The sum of the squares of a vector's raw components.
pub open spec fn sq_sum(x: int, y: int) -> int {
    x * x + y * y
}

/// A 2D vector of 16-bit fixed point scalars.
#[derive(Clone, Copy, Debug, PartialEq, Eq, Structural)]
pub struct Vec16 {
    pub x: Fx16,
    pub y: Fx16,
}

impl Vec16 {
    pub fn new(x: Fx16, y: Fx16) -> (r: Vec16)
        ensures
            r.x == x,
            r.y == y,
    {
        Vec16 { x, y }
    }

    /// The zero vector.
    pub fn zero() -> (r: Vec16)
        ensures
            r.x.0 == 0,
            r.y.0 == 0,
    {
        Vec16 { x: Fx16(0), y: Fx16(0) }
    }

    /// Widening conversion; raw components are sign-extended, not rescaled.
    pub fn to_32(&self) -> (r: Vec32)
        ensures
            r.x.0 as int == self.x.0 as int,
            r.y.0 as int == self.y.0 as int,
    {
        Vec32::new(self.x.to_fx32(), self.y.to_fx32())
    }

    /// The vector's length: the floor square root of the sum of squared raw
    /// components, computed in a widened integer domain.
    pub fn len(&self) -> (r: Fx16)
        ensures
            r.0 as int == wrap16(sqrt_floor(sq_sum(self.x.0 as int, self.y.0 as int))),
    {
        let xa: i64 = self.x.0 as i64;
        let ya: i64 = self.y.0 as i64;
        proof {
            assert(0 <= xa * xa <= 0x4000_0000 && 0 <= ya * ya <= 0x4000_0000)
                by (nonlinear_arith)
                requires
                    -0x8000 <= xa <= 0x7fff,
                    -0x8000 <= ya <= 0x7fff,
            ;
        }
        let s: u64 = (xa * xa + ya * ya) as u64;
        let q: u64 = isqrt_u64(s);
        proof {
            lemma_sqrt_floor_unique(s as int, q as int);
            assert(q < 0x1_0000) by (nonlinear_arith)
                requires
                    q * q <= s,
                    s <= 0x8000_0000,
            ;
        }
        Fx16(crate::fpa::crop_to_i16(q as i32))
    }

    /// The vector scaled to unit length by dividing each component by the
    /// length; the zero vector normalizes to itself.
    pub fn nor(self) -> (r: Vec16)
        ensures
            self.x.0 == 0 && self.y.0 == 0 ==> r.x.0 == 0 && r.y.0 == 0,
            !(self.x.0 == 0 && self.y.0 == 0) ==> {
                let l = wrap16(sqrt_floor(sq_sum(self.x.0 as int, self.y.0 as int)));
                &&& l != 0
                &&& r.x.0 as int == fx16_div_raw(self.x.0 as int, l)
                &&& r.y.0 as int == fx16_div_raw(self.y.0 as int, l)
            },
    {
        let l = self.len();
        if l.0 == 0 {
            proof {
                let sq = sq_sum(self.x.0 as int, self.y.0 as int);
                assert(0 <= sq <= 0x8000_0000) by (nonlinear_arith)
                    requires
                        sq == self.x.0 as int * self.x.0 as int + self.y.0 as int
                            * self.y.0 as int,
                        -0x8000 <= self.x.0 <= 0x7fff,
                        -0x8000 <= self.y.0 <= 0x7fff,
                ;
                if !(self.x.0 == 0 && self.y.0 == 0) {
                    assert(sq >= 1) by (nonlinear_arith)
                        requires
                            sq == sq_sum(self.x.0 as int, self.y.0 as int),
                            !(self.x.0 == 0 && self.y.0 == 0),
                    ;
                    lemma_sqrt_floor_bounds(sq);
                    let sf = sqrt_floor(sq);
                    assert(sf < 0x1_0000) by (nonlinear_arith)
                        requires
                            0 <= sf,
                            sf * sf <= sq,
                            sq <= 0x8000_0000,
                    ;
                    lemma_wrap16_small_nonzero(sf);
                    assert(false);
                }
            }
            Vec16::zero()
        } else {
            let rx = match self.x.div(l) {
                Ok(v) => v,
                Err(_) => Fx16(0),
            };
            let ry = match self.y.div(l) {
                Ok(v) => v,
                Err(_) => Fx16(0),
            };
            proof {
                if self.x.0 == 0 && self.y.0 == 0 {
                    lemma_sqrt_floor_zero();
                }
            }
            Vec16 { x: rx, y: ry }
        }
    }

    /// Componentwise wrapping addition.
    pub fn add(self, rhs: Vec16) -> (r: Vec16)
        ensures
            r.x.0 as int == fx16_add_raw(self.x.0 as int, rhs.x.0 as int),
            r.y.0 as int == fx16_add_raw(self.y.0 as int, rhs.y.0 as int),
    {
        Vec16 { x: self.x.add(rhs.x), y: self.y.add(rhs.y) }
    }

    /// Componentwise wrapping subtraction.
    pub fn sub(self, rhs: Vec16) -> (r: Vec16)
        ensures
            r.x.0 as int == fx16_sub_raw(self.x.0 as int, rhs.x.0 as int),
            r.y.0 as int == fx16_sub_raw(self.y.0 as int, rhs.y.0 as int),
    {
        Vec16 { x: self.x.sub(rhs.x), y: self.y.sub(rhs.y) }
    }

    /// Both components multiplied by a scalar.
    pub fn mul(self, rhs: Fx16) -> (r: Vec16)
        ensures
            r.x.0 as int == fx16_mul_raw(self.x.0 as int, rhs.0 as int),
            r.y.0 as int == fx16_mul_raw(self.y.0 as int, rhs.0 as int),
    {
        Vec16 { x: self.x.mul(rhs), y: self.y.mul(rhs) }
    }

    /// Both components divided by a scalar, with division by zero reported
    /// as an explicit error.
    pub fn div(self, rhs: Fx16) -> (r: Result<Vec16, FxError>)
        ensures
            rhs.0 == 0 <==> r is Err,
            rhs.0 != 0 ==> (r matches Ok(v) && v.x.0 as int == fx16_div_raw(
                self.x.0 as int,
                rhs.0 as int,
            ) && v.y.0 as int == fx16_div_raw(self.y.0 as int, rhs.0 as int)),
    {
        let x = self.x.div(rhs)?;
        let y = match self.y.div(rhs) {
            Ok(v) => v,
            Err(e) => {
                return Err(e);
            },
        };
        Ok(Vec16 { x, y })
    }
}

/// A 2D vector of 32-bit fixed point scalars.
#[derive(Clone, Copy, Debug, PartialEq, Eq, Structural)]
pub struct Vec32 {
    pub x: Fx32,
    pub y: Fx32,
}

impl Vec32 {
    pub fn new(x: Fx32, y: Fx32) -> (r: Vec32)
        ensures
            r.x == x,
            r.y == y,
    {
        Vec32 { x, y }
    }

    /// The zero vector.
    pub fn zero() -> (r: Vec32)
        ensures
            r.x.0 == 0,
            r.y.0 == 0,
    {
        Vec32 { x: Fx32(0), y: Fx32(0) }
    }

    /// Narrowing conversion; raw components wrap to the 16-bit width.
    pub fn to_16(&self) -> (r: Vec16)
        ensures
            r.x.0 as int == wrap16(self.x.0 as int),
            r.y.0 as int == wrap16(self.y.0 as int),
    {
        Vec16::new(self.x.to_fx16(), self.y.to_fx16())
    }

    /// The vector's length, as for the 16-bit width.
    pub fn len(&self) -> (r: Fx32)
        ensures
            r.0 as int == wrap32(sqrt_floor(sq_sum(self.x.0 as int, self.y.0 as int))),
    {
        let xa: i64 = self.x.0 as i64;
        let ya: i64 = self.y.0 as i64;
        let xm: u64 = if xa < 0 {
            (-xa) as u64
        } else {
            xa as u64
        };
        let ym: u64 = if ya < 0 {
            (-ya) as u64
        } else {
            ya as u64
        };
        proof {
            assert(xm * xm <= 0x4000_0000_0000_0000 && ym * ym <= 0x4000_0000_0000_0000
                && xm * xm == xa * xa && ym * ym == ya * ya) by (nonlinear_arith)
                requires
                    xm <= 0x8000_0000,
                    ym <= 0x8000_0000,
                    xm as int == vstd::math::abs(xa as int),
                    ym as int == vstd::math::abs(ya as int),
            ;
        }
        let s: u64 = xm * xm + ym * ym;
        let q: u64 = isqrt_u64(s);
        proof {
            lemma_sqrt_floor_unique(s as int, q as int);
            assert(q < 0x1_0000_0000) by (nonlinear_arith)
                requires
                    q * q <= s,
                    s <= 0x8000_0000_0000_0000,
            ;
        }
        Fx32(crate::fpa::crop_to_i32(q as i64))
    }

    /// The vector scaled to unit length, with the zero vector normalizing
    /// to itself.
    pub fn nor(self) -> (r: Vec32)
        ensures
            self.x.0 == 0 && self.y.0 == 0 ==> r.x.0 == 0 && r.y.0 == 0,
            !(self.x.0 == 0 && self.y.0 == 0) ==> {
                let l = wrap32(sqrt_floor(sq_sum(self.x.0 as int, self.y.0 as int)));
                &&& l != 0
                &&& r.x.0 as int == fx32_div_raw(self.x.0 as int, l)
                &&& r.y.0 as int == fx32_div_raw(self.y.0 as int, l)
            },
    {
        let l = self.len();
        if l.0 == 0 {
            proof {
                let sq = sq_sum(self.x.0 as int, self.y.0 as int);
                assert(0 <= sq <= 0x8000_0000_0000_0000) by (nonlinear_arith)
                    requires
                        sq == self.x.0 as int * self.x.0 as int + self.y.0 as int
                            * self.y.0 as int,
                        -0x8000_0000 <= self.x.0 <= 0x7fff_ffff,
                        -0x8000_0000 <= self.y.0 <= 0x7fff_ffff,
                ;
                if !(self.x.0 == 0 && self.y.0 == 0) {
                    assert(sq >= 1) by (nonlinear_arith)
                        requires
                            sq == sq_sum(self.x.0 as int, self.y.0 as int),
                            !(self.x.0 == 0 && self.y.0 == 0),
                    ;
                    lemma_sqrt_floor_bounds(sq);
                    let sf = sqrt_floor(sq);
                    assert(sf < 0x1_0000_0000) by (nonlinear_arith)
                        requires
                            0 <= sf,
                            sf * sf <= sq,
                            sq <= 0x8000_0000_0000_0000,
                    ;
                    lemma_wrap32_small_nonzero(sf);
                    assert(false);
                }
            }
            Vec32::zero()
        } else {
            let rx = match self.x.div(l) {
                Ok(v) => v,
                Err(_) => Fx32(0),
            };
            let ry = match self.y.div(l) {
                Ok(v) => v,
                Err(_) => Fx32(0),
            };
            proof {
                if self.x.0 == 0 && self.y.0 == 0 {
                    lemma_sqrt_floor_zero();
                }
            }
            Vec32 { x: rx, y: ry }
        }
    }

    /// Componentwise wrapping addition.
    pub fn add(self, rhs: Vec32) -> (r: Vec32)
        ensures
            r.x.0 as int == fx32_add_raw(self.x.0 as int, rhs.x.0 as int),
            r.y.0 as int == fx32_add_raw(self.y.0 as int, rhs.y.0 as int),
    {
        Vec32 { x: self.x.add(rhs.x), y: self.y.add(rhs.y) }
    }

    /// Componentwise wrapping subtraction.
    pub fn sub(self, rhs: Vec32) -> (r: Vec32)
        ensures
            r.x.0 as int == fx32_sub_raw(self.x.0 as int, rhs.x.0 as int),
            r.y.0 as int == fx32_sub_raw(self.y.0 as int, rhs.y.0 as int),
    {
        Vec32 { x: self.x.sub(rhs.x), y: self.y.sub(rhs.y) }
    }

    /// Both components multiplied by a scalar.
    pub fn mul(self, rhs: Fx32) -> (r: Vec32)
        ensures
            r.x.0 as int == fx32_mul_raw(self.x.0 as int, rhs.0 as int),
            r.y.0 as int == fx32_mul_raw(self.y.0 as int, rhs.0 as int),
    {
        Vec32 { x: self.x.mul(rhs), y: self.y.mul(rhs) }
    }

    /// Both components divided by a scalar, with division by zero reported
    /// as an explicit error.
    pub fn div(self, rhs: Fx32) -> (r: Result<Vec32, FxError>)
        ensures
            rhs.0 == 0 <==> r is Err,
            rhs.0 != 0 ==> (r matches Ok(v) && v.x.0 as int == fx32_div_raw(
                self.x.0 as int,
                rhs.0 as int,
            ) && v.y.0 as int == fx32_div_raw(self.y.0 as int, rhs.0 as int)),
    {
        let x = match self.x.div(rhs) {
            Ok(v) => v,
            Err(e) => {
                return Err(e);
            },
        };
        let y = match self.y.div(rhs) {
            Ok(v) => v,
            Err(e) => {
                return Err(e);
            },
        };
        Ok(Vec32 { x, y })
    }
}

/// The floor square root of zero is zero.
proof fn lemma_sqrt_floor_zero()
    ensures
        sqrt_floor(0) == 0,
{
    lemma_sqrt_floor_unique(0, 0);
}

/// The floor square root of a positive number is positive, and square
/// roots of bounded numbers are bounded.
proof fn lemma_sqrt_floor_bounds(n: int)
    requires
        1 <= n,
    ensures
        1 <= sqrt_floor(n),
        sqrt_floor(n) * sqrt_floor(n) <= n < (sqrt_floor(n) + 1) * (sqrt_floor(n) + 1),
{
    lemma_sqrt_floor_exists(n);
    let s = sqrt_floor(n);
    assert(crate::fpa::is_sqrt_floor(n, s));
    if s < 1 {
        assert(false);
    }
}

/// A positive value below the 16-bit modulus does not wrap to zero.
proof fn lemma_wrap16_small_nonzero(s: int)
    ensures
        1 <= s < 0x1_0000 ==> wrap16(s) != 0,
        0 <= s < 0x8000 ==> wrap16(s) == s,
{
    if 0 <= s < 0x1_0000 {
        vstd::arithmetic::div_mod::lemma_small_mod(s as nat, 0x1_0000nat);
    }
}

/// A positive value below the 32-bit modulus does not wrap to zero.
proof fn lemma_wrap32_small_nonzero(s: int)
    ensures
        1 <= s < 0x1_0000_0000 ==> wrap32(s) != 0,
        0 <= s < 0x8000_0000 ==> wrap32(s) == s,
{
    if 0 <= s < 0x1_0000_0000 {
        vstd::arithmetic::div_mod::lemma_small_mod(s as nat, 0x1_0000_0000nat);
    }
}

/// Division characterization used for normalization: scaling a component
/// bounded by the length and dividing by the length lands within one
/// length-unit of the exact ratio, and never exceeds the scale factor.
proof fn lemma_div_scale_err(x: int, l: int)
    requires
        0 < l,
        -l <= x <= l,
    ensures
        -64 <= div_trunc(64 * x, l) <= 64,
        64 * x - l < l * div_trunc(64 * x, l) <= 64 * x + l,
{
    vstd::arithmetic::div_mod::lemma_div_multiples_vanish(64, l);
    assert(l * 64 == 64 * l) by (nonlinear_arith);
    if x >= 0 {
        let d = div_trunc(64 * x, l);
        vstd::arithmetic::div_mod::lemma_fundamental_div_mod(64 * x, l);
        vstd::arithmetic::div_mod::lemma_mod_division_less_than_divisor(64 * x, l);
        vstd::arithmetic::div_mod::lemma_div_pos_is_pos(64 * x, l);
        vstd::arithmetic::div_mod::lemma_div_is_ordered(64 * x, 64 * l, l);
        assert(64 * x <= 64 * l) by (nonlinear_arith)
            requires
                x <= l,
        ;
        assert(d == (64 * x) / l);
        assert(l * d == 64 * x - (64 * x) % l) by (nonlinear_arith)
            requires
                64 * x == l * ((64 * x) / l) + (64 * x) % l,
                d == (64 * x) / l,
        ;
    } else {
        let m = -x;
        let q = (64 * m) / l;
        assert(div_trunc(64 * x, l) == -q) by {
            assert((64 * x) * -1 == 64 * m);
        }
        vstd::arithmetic::div_mod::lemma_fundamental_div_mod(64 * m, l);
        vstd::arithmetic::div_mod::lemma_mod_division_less_than_divisor(64 * m, l);
        vstd::arithmetic::div_mod::lemma_div_pos_is_pos(64 * m, l);
        vstd::arithmetic::div_mod::lemma_div_is_ordered(64 * m, 64 * l, l);
        assert(64 * m <= 64 * l) by (nonlinear_arith)
            requires
                m <= l,
        ;
        assert(l * (-q) == 64 * x + (64 * m) % l) by (nonlinear_arith)
            requires
                64 * m == l * q + (64 * m) % l,
                m == -x,
        ;
    }
}

/// The square of a value within `err` of `a` (with `a` bounded by `64 *
/// l` and `err` by `l`) stays within `129 * l * l` of the square of `a`.
proof fn lemma_square_err(u: int, a: int, l: int)
    requires
        0 < l,
        -l <= u - a <= l,
        -(64 * l) <= a <= 64 * l,
    ensures
        a * a - 128 * (l * l) <= u * u <= a * a + 129 * (l * l),
{
    let e = u - a;
    assert(u * u == a * a + 2 * (a * e) + e * e) by (nonlinear_arith)
        requires
            e == u - a,
    ;
    assert(-(64 * (l * l)) <= a * e <= 64 * (l * l)) by (nonlinear_arith)
        requires
            -(64 * l) <= a <= 64 * l,
            -l <= e <= l,
            0 < l,
    ;
    assert(0 <= e * e <= l * l) by (nonlinear_arith)
        requires
            -l <= e <= l,
    ;
}

/// Normalize scales to unit length, within fixed point tolerance: for a
/// vector whose length is at least one (and small enough not to wrap),
/// the squared raw components of the normalized vector put its length
/// within 3 raw units of the raw encoding of one (64).
pub proof fn lemma_vec16_normalize_unit_length(v: Vec16)
    requires
        64 <= sqrt_floor(sq_sum(v.x.0 as int, v.y.0 as int)) <= 0x7fff,
    ensures
        ({
            let l = sqrt_floor(sq_sum(v.x.0 as int, v.y.0 as int));
            let nx = fx16_div_raw(v.x.0 as int, l);
            let ny = fx16_div_raw(v.y.0 as int, l);
            61 <= sqrt_floor(sq_sum(nx, ny)) <= 66
        }),
{
    let x = v.x.0 as int;
    let y = v.y.0 as int;
    let s = sq_sum(x, y);
    assert(0 <= s) by (nonlinear_arith)
        requires
            s == x * x + y * y,
    ;
    lemma_sqrt_floor_exists(s);
    let l = sqrt_floor(s);
    assert(l * l <= s < (l + 1) * (l + 1));
    assert(x * x <= s && y * y <= s) by (nonlinear_arith)
        requires
            s == x * x + y * y,
    ;
    // Components are bounded by the length.
    assert(-l <= x <= l && -l <= y <= l) by (nonlinear_arith)
        requires
            x * x <= s,
            y * y <= s,
            s < (l + 1) * (l + 1),
            s == x * x + y * y,
            64 <= l,
    ;
    lemma_div_scale_err(x, l);
    lemma_div_scale_err(y, l);
    let dx = div_trunc(64 * x, l);
    let dy = div_trunc(64 * y, l);
    // The raw quotients do not wrap in 16 bits.
    assert(wrap16(dx) == dx && wrap16(dy) == dy) by {
        lemma_wrap16_id_range(dx);
        lemma_wrap16_id_range(dy);
    }
    assert(fx16_div_raw(x, l) == dx && fx16_div_raw(y, l) == dy);
    let u = l * dx;
    let w = l * dy;
    assert(-(64 * l) <= 64 * x <= 64 * l && -(64 * l) <= 64 * y <= 64 * l)
        by (nonlinear_arith)
        requires
            -l <= x <= l,
            -l <= y <= l,
            0 < l,
    ;
    lemma_square_err(u, 64 * x, l);
    lemma_square_err(w, 64 * y, l);
    // (64x)^2 + (64y)^2 == 4096 s.
    assert((64 * x) * (64 * x) + (64 * y) * (64 * y) == 4096 * s) by (nonlinear_arith)
        requires
            s == x * x + y * y,
    ;
    let t = sq_sum(dx, dy);
    assert(u * u + w * w == (l * l) * t) by (nonlinear_arith)
        requires
            u == l * dx,
            w == l * dy,
            t == dx * dx + dy * dy,
    ;
    // Lower bound: 4096 s >= 4096 l^2, so t >= 3840.
    assert((l * l) * t >= 3840 * (l * l)) by (nonlinear_arith)
        requires
            u * u + w * w == (l * l) * t,
            u * u >= (64 * x) * (64 * x) - 128 * (l * l),
            w * w >= (64 * y) * (64 * y) - 128 * (l * l),
            (64 * x) * (64 * x) + (64 * y) * (64 * y) == 4096 * s,
            s >= l * l,
    ;
    // Upper bound: 4096 s <= 4096 (l^2 + 2 l), and 8192 l <= 128 l^2.
    assert((l * l) * t <= 4482 * (l * l)) by (nonlinear_arith)
        requires
            u * u + w * w == (l * l) * t,
            u * u <= (64 * x) * (64 * x) + 129 * (l * l),
            w * w <= (64 * y) * (64 * y) + 129 * (l * l),
            (64 * x) * (64 * x) + (64 * y) * (64 * y) == 4096 * s,
            s < (l + 1) * (l + 1),
            64 <= l,
    ;
    assert(3840 <= t <= 4482) by (nonlinear_arith)
        requires
            3840 * (l * l) <= (l * l) * t <= 4482 * (l * l),
            64 <= l,
    ;
    lemma_sqrt_floor_exists(t);
    let r = sqrt_floor(t);
    assert(61 <= r <= 66) by (nonlinear_arith)
        requires
            0 <= r,
            r * r <= t,
            t < (r + 1) * (r + 1),
            3840 <= t <= 4482,
    ;
}

/// Sixteen-bit wrap is the identity on small quotients.
proof fn lemma_wrap16_id_range(d: int)
    requires
        -64 <= d <= 64,
    ensures
        wrap16(d) == d,
{
    if d >= 0 {
        vstd::arithmetic::div_mod::lemma_small_mod(d as nat, 0x1_0000nat);
    } else {
        vstd::arithmetic::div_mod::lemma_mod_multiples_vanish(1, d, 0x1_0000);
        vstd::arithmetic::div_mod::lemma_small_mod((d + 0x1_0000) as nat, 0x1_0000nat);
    }
}

/// Thirty-two-bit wrap is the identity on small quotients.
proof fn lemma_wrap32_id_range(d: int)
    requires
        -64 <= d <= 64,
    ensures
        wrap32(d) == d,
{
    if d >= 0 {
        vstd::arithmetic::div_mod::lemma_small_mod(d as nat, 0x1_0000_0000nat);
    } else {
        vstd::arithmetic::div_mod::lemma_mod_multiples_vanish(1, d, 0x1_0000_0000);
        vstd::arithmetic::div_mod::lemma_small_mod((d + 0x1_0000_0000) as nat, 0x1_0000_0000nat);
    }
}

/// The 32-bit counterpart of `lemma_vec16_normalize_unit_length`: for a
/// vector whose length is at least one and small enough not to wrap,
/// normalizing puts the length within 3 raw units of the raw encoding of
/// one.
pub proof fn lemma_vec32_normalize_unit_length(v: Vec32)
    requires
        64 <= sqrt_floor(sq_sum(v.x.0 as int, v.y.0 as int)) <= 0x7fff_ffff,
    ensures
        ({
            let l = sqrt_floor(sq_sum(v.x.0 as int, v.y.0 as int));
            let nx = fx32_div_raw(v.x.0 as int, l);
            let ny = fx32_div_raw(v.y.0 as int, l);
            61 <= sqrt_floor(sq_sum(nx, ny)) <= 66
        }),
{
    let x = v.x.0 as int;
    let y = v.y.0 as int;
    let s = sq_sum(x, y);
    assert(0 <= s) by (nonlinear_arith)
        requires
            s == x * x + y * y,
    ;
    lemma_sqrt_floor_exists(s);
    let l = sqrt_floor(s);
    assert(l * l <= s < (l + 1) * (l + 1));
    assert(x * x <= s && y * y <= s) by (nonlinear_arith)
        requires
            s == x * x + y * y,
    ;
    assert(-l <= x <= l && -l <= y <= l) by (nonlinear_arith)
        requires
            x * x <= s,
            y * y <= s,
            s < (l + 1) * (l + 1),
            s == x * x + y * y,
            64 <= l,
    ;
    lemma_div_scale_err(x, l);
    lemma_div_scale_err(y, l);
    let dx = div_trunc(64 * x, l);
    let dy = div_trunc(64 * y, l);
    assert(wrap32(dx) == dx && wrap32(dy) == dy) by {
        lemma_wrap32_id_range(dx);
        lemma_wrap32_id_range(dy);
    }
    assert(fx32_div_raw(x, l) == dx && fx32_div_raw(y, l) == dy);
    let u = l * dx;
    let w = l * dy;
    assert(-(64 * l) <= 64 * x <= 64 * l && -(64 * l) <= 64 * y <= 64 * l)
        by (nonlinear_arith)
        requires
            -l <= x <= l,
            -l <= y <= l,
            0 < l,
    ;
    lemma_square_err(u, 64 * x, l);
    lemma_square_err(w, 64 * y, l);
    assert((64 * x) * (64 * x) + (64 * y) * (64 * y) == 4096 * s) by (nonlinear_arith)
        requires
            s == x * x + y * y,
    ;
    let t = sq_sum(dx, dy);
    assert(u * u + w * w == (l * l) * t) by (nonlinear_arith)
        requires
            u == l * dx,
            w == l * dy,
            t == dx * dx + dy * dy,
    ;
    assert((l * l) * t >= 3840 * (l * l)) by (nonlinear_arith)
        requires
            u * u + w * w == (l * l) * t,
            u * u >= (64 * x) * (64 * x) - 128 * (l * l),
            w * w >= (64 * y) * (64 * y) - 128 * (l * l),
            (64 * x) * (64 * x) + (64 * y) * (64 * y) == 4096 * s,
            s >= l * l,
    ;
    assert((l * l) * t <= 4482 * (l * l)) by (nonlinear_arith)
        requires
            u * u + w * w == (l * l) * t,
            u * u <= (64 * x) * (64 * x) + 129 * (l * l),
            w * w <= (64 * y) * (64 * y) + 129 * (l * l),
            (64 * x) * (64 * x) + (64 * y) * (64 * y) == 4096 * s,
            s < (l + 1) * (l + 1),
            64 <= l,
    ;
    assert(3840 <= t <= 4482) by (nonlinear_arith)
        requires
            3840 * (l * l) <= (l * l) * t <= 4482 * (l * l),
            64 <= l,
    ;
    lemma_sqrt_floor_exists(t);
    let r = sqrt_floor(t);
    assert(61 <= r <= 66) by (nonlinear_arith)
        requires
            0 <= r,
            r * r <= t,
            t < (r + 1) * (r + 1),
            3840 <= t <= 4482,
    ;
}

} // verus!
