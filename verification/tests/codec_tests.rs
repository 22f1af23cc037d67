use qc_interop::codec::{to_decimal, to_f64, DecimalType};
use qc_interop::errors::InteropError;

fn roundtrip(x: f64) -> f64 {
    let d = to_decimal(x.to_bits()).unwrap();
    f64::from_bits(to_f64(d.lo, d.hi, d.sign_scale).unwrap())
}

#[test]
fn to_decimal_negative_five() {
    let d = to_decimal((-5.0f64).to_bits()).unwrap();
    assert_eq!(d, DecimalType { lo: 5, hi: 0, sign_scale: 1 });
}

#[test]
fn to_f64_negative_five() {
    let bits = to_f64(5, 0, 1).unwrap();
    assert_eq!(f64::from_bits(bits), -5.0);
}

#[test]
fn to_decimal_scale_two() {
    let d = to_decimal(123.45f64.to_bits()).unwrap();
    assert_eq!(d, DecimalType { lo: 12345, hi: 0, sign_scale: 4 });
}

#[test]
fn to_f64_scale_two() {
    let bits = to_f64(12345, 0, 4).unwrap();
    assert_eq!(f64::from_bits(bits), 123.45);
}

#[test]
fn to_decimal_zero() {
    let d = to_decimal(0.0f64.to_bits()).unwrap();
    assert_eq!(d, DecimalType { lo: 0, hi: 0, sign_scale: 0 });
}

#[test]
fn to_f64_zero() {
    let bits = to_f64(0, 0, 0).unwrap();
    assert_eq!(f64::from_bits(bits), 0.0);
}

#[test]
fn to_decimal_rejects_nan() {
    assert_eq!(to_decimal(f64::NAN.to_bits()), Err(InteropError::NonFiniteInput));
}

#[test]
fn to_decimal_rejects_positive_infinity() {
    assert_eq!(to_decimal(f64::INFINITY.to_bits()), Err(InteropError::NonFiniteInput));
}

#[test]
fn to_decimal_rejects_negative_infinity() {
    assert_eq!(to_decimal(f64::NEG_INFINITY.to_bits()), Err(InteropError::NonFiniteInput));
}

#[test]
fn to_decimal_rejects_overflow() {
    assert_eq!(to_decimal(1.0e30f64.to_bits()), Err(InteropError::Overflow));
}

#[test]
fn to_f64_rejects_scale_29() {
    assert_eq!(to_f64(1, 0, 29 << 1), Err(InteropError::UnsupportedScale));
}

#[test]
fn to_f64_rejects_largest_scale_field() {
    assert_eq!(to_f64(1, 0, 0x01FF), Err(InteropError::UnsupportedScale));
}

#[test]
fn to_f64_accepts_scale_28() {
    assert!(to_f64(1, 0, 28 << 1).is_ok());
}

#[test]
fn roundtrip_simple_values() {
    for &x in &[0.0, 1.0, -1.0, 0.5, -0.25, 123.45, -9876.5432, 42.0, 1.0e15, -3.0e10] {
        assert_eq!(roundtrip(x), x);
    }
}

#[test]
fn roundtrip_integers_at_every_scale() {
    // 12345 at scale s reads 12345 / 10^s; every such value is exactly
    // representable for small mantissas, so the double must come back intact.
    for s in 0u32..=28u32 {
        let bits = to_f64(12345, 0, s << 1).unwrap();
        let x = f64::from_bits(bits);
        assert_eq!(roundtrip(x), x);
    }
}

#[test]
fn to_f64_uses_high_word() {
    // 2^64 = high word 1: the double must be 18446744073709551616.0.
    let bits = to_f64(0, 1, 0).unwrap();
    assert_eq!(f64::from_bits(bits), 18446744073709551616.0);
}
