//! Fixed point vector behaviour.

use game_core::fpa::{Fx16, Fx32};
use game_core::fpavec::{Vec16, Vec32};

#[test]
fn vec16_length() {
    // A 3-4-5 triangle in whole units: raw (192, 256) has raw length 320.
    let v = Vec16::new(Fx16(192), Fx16(256));
    assert_eq!(v.len(), Fx16(320));
    // Length floors: raw (1, 1) has length floor(sqrt 2) = 1.
    assert_eq!(Vec16::new(Fx16(1), Fx16(1)).len(), Fx16(1));
    assert_eq!(Vec16::zero().len(), Fx16(0));
}

#[test]
fn vec32_length() {
    let v = Vec32::new(Fx32(300000), Fx32(400000));
    assert_eq!(v.len(), Fx32(500000));
    assert_eq!(Vec32::zero().len(), Fx32(0));
}

/// Normalizing the zero vector returns the zero vector; no trap, no
/// division by zero.
#[test]
fn normalize_zero_is_zero() {
    assert_eq!(Vec16::zero().nor(), Vec16::zero());
    assert_eq!(Vec32::zero().nor(), Vec32::zero());
}

/// Normalizing a non-zero vector yields length one within fixed point
/// tolerance (three raw units of the encoding of one).
#[test]
fn normalize_unit_length() {
    let samples = [
        (192i16, 256i16),
        (64, 0),
        (0, -64),
        (100, 100),
        (-300, 125),
        (1000, -2000),
        (-64, -64),
    ];
    for &(x, y) in samples.iter() {
        let n = Vec16::new(Fx16(x), Fx16(y)).nor();
        let l = n.len().0 as i32;
        assert!((l - 64).abs() <= 3, "len {} for ({}, {})", l, x, y);
    }
    let n = Vec32::new(Fx32(300000), Fx32(400000)).nor();
    let l = n.len().0 as i64;
    assert!((l - 64).abs() <= 3);
}

#[test]
fn vec16_componentwise_ops() {
    let a = Vec16::new(Fx16(10), Fx16(20));
    let b = Vec16::new(Fx16(1), Fx16(2));
    assert_eq!(a.add(b), Vec16::new(Fx16(11), Fx16(22)));
    assert_eq!(a.sub(b), Vec16::new(Fx16(9), Fx16(18)));
    // Scaling by two (raw 128): each raw component doubles.
    assert_eq!(a.mul(Fx16(128)), Vec16::new(Fx16(20), Fx16(40)));
    assert_eq!(a.div(Fx16(128)).unwrap(), Vec16::new(Fx16(5), Fx16(10)));
    assert!(a.div(Fx16(0)).is_err());
}

#[test]
fn vec_width_conversions() {
    let a = Vec16::new(Fx16(-5), Fx16(7));
    assert_eq!(a.to_32(), Vec32::new(Fx32(-5), Fx32(7)));
    let b = Vec32::new(Fx32(-5), Fx32(7));
    assert_eq!(b.to_16(), a);
}
