//! Fixed point scalar behaviour.

use game_core::fpa::{Fx16, Fx32, FxError, FPA_MUL_INT, FPA_PREC};

fn fx32_new(v: f32) -> Fx32 {
    Fx32((v * FPA_MUL_INT as f32) as i32)
}

fn fx32_to_f32(v: Fx32) -> f32 {
    v.0 as f32 / FPA_MUL_INT as f32
}

fn fx16_new(v: f32) -> Fx16 {
    Fx16((v * FPA_MUL_INT as f32) as i16)
}

fn fx16_to_f32(v: Fx16) -> f32 {
    v.0 as f32 / FPA_MUL_INT as f32
}

#[test]
fn test_fpa_consts() {
    assert_eq!(2.0f32.powi(FPA_PREC as i32), FPA_MUL_INT as f32);
    assert_eq!(1i32 << FPA_PREC, FPA_MUL_INT);
}

#[test]
fn test_fpa32() {
    assert_eq!(std::mem::size_of::<Fx32>(), 4);
    let mut foo = fx32_new(64.0);
    let bar = fx32_new(150.0);
    foo = foo.add(fx32_new(32.0));
    foo = foo.sub(fx32_new(16.0));
    foo = foo.mul(fx32_new(4.0));
    foo = foo.div(fx32_new(2.0)).unwrap();
    assert_eq!(fx32_to_f32(foo), 160.0);
    assert_eq!(foo, bar.add(fx32_new(10.0)));
    assert_eq!(fx32_to_f32(foo.neg()), -160.0);
    assert!(foo > bar);
    assert_eq!(fx32_to_f32(fx32_new(2.0).powi(2)), 4.0);
    assert_eq!(fx32_to_f32(fx32_new(-2.0).powi(2)), 4.0);
    assert_eq!(fx32_to_f32(fx32_new(4.0).sqrt().unwrap()), 2.0);
    assert_eq!(fx32_to_f32(fx32_new(2.25).sqrt().unwrap()), 1.5);
}

#[test]
fn test_fpa16() {
    assert_eq!(std::mem::size_of::<Fx16>(), 2);
    let mut foo = fx16_new(64.0);
    let bar = fx16_new(150.0);
    foo = foo.add(fx16_new(32.0));
    foo = foo.sub(fx16_new(16.0));
    foo = foo.div(fx16_new(2.0)).unwrap();
    foo = foo.mul(fx16_new(4.0));
    assert_eq!(fx16_to_f32(foo), 160.0);
    assert_eq!(foo, bar.add(fx16_new(10.0)));
    assert_eq!(fx16_to_f32(foo.neg()), -160.0);
    assert!(foo > bar);
    assert_eq!(fx16_to_f32(fx16_new(2.0).powi(2)), 4.0);
    assert_eq!(fx16_to_f32(fx16_new(4.0).sqrt().unwrap()), 2.0);
    assert_eq!(fx16_to_f32(fx16_new(2.25).sqrt().unwrap()), 1.5);
}

/// Constructing from a float and reading it back stays within one unit in
/// the last representable place.
#[test]
fn scalar_float_round_trip() {
    let samples = [
        0.0f32, 1.0, -1.0, 0.5, -0.5, 3.75, -3.75, 123.456, -123.456, 1000.125, -1000.125,
        0.015625, 511.99,
    ];
    for &f in samples.iter() {
        let back32 = fx32_to_f32(fx32_new(f));
        assert!((back32 - f).abs() <= 1.0 / FPA_MUL_INT as f32);
        if f.abs() < 500.0 {
            let back16 = fx16_to_f32(fx16_new(f));
            assert!((back16 - f).abs() <= 1.0 / FPA_MUL_INT as f32);
        }
    }
}

/// Adding then subtracting the same value gives the first operand back
/// exactly; multiplying by one and dividing by self are exact.
#[test]
fn scalar_arithmetic_identities() {
    let samples32 = [0i32, 1, -1, 64, -64, 12345, -98765, i32::MAX, i32::MIN + 1];
    for &a in samples32.iter() {
        for &b in samples32.iter() {
            let x = Fx32(a);
            let y = Fx32(b);
            assert_eq!(x.add(y).sub(y), x);
        }
        let one = Fx32::from_int(1);
        assert_eq!(Fx32(a).mul(one), Fx32(a));
        if a != 0 {
            assert_eq!(Fx32(a).div(Fx32(a)).unwrap(), one);
        }
    }
    let samples16 = [0i16, 1, -1, 64, -64, 1234, -3210, i16::MAX, i16::MIN + 1];
    for &a in samples16.iter() {
        for &b in samples16.iter() {
            let x = Fx16(a);
            let y = Fx16(b);
            assert_eq!(x.add(y).sub(y), x);
        }
        let one = Fx16::from_int(1);
        assert_eq!(Fx16(a).mul(one), Fx16(a));
        if a != 0 {
            assert_eq!(Fx16(a).div(Fx16(a)).unwrap(), one);
        }
    }
}

/// Division by a zero-valued scalar is a reported error, not a trap.
#[test]
fn scalar_divide_by_zero() {
    assert_eq!(Fx32::from_int(5).div(Fx32(0)), Err(FxError::DivideByZero));
    assert_eq!(Fx16::from_int(5).div(Fx16(0)), Err(FxError::DivideByZero));
    assert_eq!(Fx32(0).div(Fx32(0)), Err(FxError::DivideByZero));
}

/// The square root of a negative scalar is a reported error, never
/// garbage.
#[test]
fn scalar_negative_sqrt() {
    assert_eq!(Fx32::from_int(-1).sqrt(), Err(FxError::NegativeSqrt));
    assert_eq!(Fx16::from_int(-1).sqrt(), Err(FxError::NegativeSqrt));
    assert_eq!(Fx32(-1).sqrt(), Err(FxError::NegativeSqrt));
}

/// Square roots floor to the nearest representable fixed point value.
#[test]
fn scalar_sqrt_floors() {
    // 2.0 in fixed point: sqrt is 1.414..., floored to 90/64.
    assert_eq!(fx32_new(2.0).sqrt().unwrap(), Fx32(90));
    assert_eq!(fx16_new(2.0).sqrt().unwrap(), Fx16(90));
    assert_eq!(Fx32(0).sqrt().unwrap(), Fx32(0));
}

/// Conversions between the widths keep the raw integer, not the scale.
#[test]
fn scalar_width_conversions() {
    let a = Fx16(1234);
    assert_eq!(a.to_fx32(), Fx32(1234));
    let b = Fx32(-1234);
    assert_eq!(b.to_fx16(), Fx16(-1234));
    // Narrowing a too-large raw value wraps like a two's complement cast.
    let c = Fx32(0x12345);
    assert_eq!(c.to_fx16(), Fx16(0x12345u32 as u16 as i16));
}

/// The exponent quirk of repeated multiplication: 0 and 1 both return the
/// value unchanged.
#[test]
fn scalar_powi_low_exponents() {
    let a = fx32_new(3.5);
    assert_eq!(a.powi(0), a);
    assert_eq!(a.powi(1), a);
    let b = fx16_new(3.5);
    assert_eq!(b.powi(0), b);
    assert_eq!(b.powi(1), b);
    assert_eq!(fx32_to_f32(fx32_new(2.0).powi(3)), 8.0);
}
