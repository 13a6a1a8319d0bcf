use argminmax::f16_ord::{f16_to_i16ord, i16ord_to_f16, F16};
use argminmax::f32_ord::{f32_to_i32ord, i32ord_to_f32, F32};
use argminmax::f64_ord::{f64_to_i64ord, i64ord_to_f64, F64};
use argminmax::simd_u32::{decr_ord_i32_to_u32, u32_to_i32decrord};
use half::f16;

#[test]
fn test_u32_ordinal_round_trip() {
    for v in [0u32, 1, 2, 1_234_567, 0x7FFF_FFFE, 0x7FFF_FFFF, 0x8000_0000, u32::MAX - 1, u32::MAX]
    {
        assert_eq!(decr_ord_i32_to_u32(u32_to_i32decrord(v)), v);
    }
}

#[test]
fn test_u32_ordinal_reverses_order() {
    let samples = [0u32, 1, 9, 1_000, 0x7FFF_FFFF, 0x8000_0000, u32::MAX];
    for &a in samples.iter() {
        for &b in samples.iter() {
            assert_eq!(a < b, u32_to_i32decrord(a) > u32_to_i32decrord(b));
        }
    }
}

#[test]
fn test_f16_ordinal_round_trip() {
    let samples = [
        f16::MIN,
        f16::MAX,
        f16::from_f32(0.0),
        f16::from_f32(-0.0),
        f16::from_f32(1.5),
        f16::from_f32(-2.25),
        f16::MIN_POSITIVE,
        f16::from_f32(12345.0),
    ];
    for s in samples.iter() {
        let x = F16::from_bits(s.to_bits());
        assert_eq!(i16ord_to_f16(f16_to_i16ord(x)), x);
    }
}

#[test]
fn test_f16_ordinal_preserves_order() {
    let samples = [
        f16::MIN,
        f16::from_f32(-100.5),
        f16::from_f32(-0.125),
        f16::from_f32(0.0),
        f16::from_f32(0.125),
        f16::from_f32(3.75),
        f16::MAX,
    ];
    for w in samples.windows(2) {
        let a = F16::from_bits(w[0].to_bits());
        let b = F16::from_bits(w[1].to_bits());
        assert!(f16_to_i16ord(a) < f16_to_i16ord(b));
    }
}

#[test]
fn test_f32_ordinal_round_trip() {
    let samples = [
        f32::MIN,
        f32::MAX,
        0.0f32,
        -0.0,
        1.5,
        -2.25,
        f32::MIN_POSITIVE,
        3.4e12,
    ];
    for s in samples.iter() {
        let x = F32::from_bits(s.to_bits());
        assert_eq!(i32ord_to_f32(f32_to_i32ord(x)), x);
    }
}

#[test]
fn test_f32_ordinal_preserves_order() {
    let samples = [f32::MIN, -100.5f32, -0.125, 0.0, 0.125, 3.75, f32::MAX];
    for w in samples.windows(2) {
        let a = F32::from_bits(w[0].to_bits());
        let b = F32::from_bits(w[1].to_bits());
        assert!(f32_to_i32ord(a) < f32_to_i32ord(b));
    }
}

#[test]
fn test_f64_ordinal_round_trip() {
    let samples = [
        f64::MIN,
        f64::MAX,
        0.0f64,
        -0.0,
        1.5,
        -2.25,
        f64::MIN_POSITIVE,
        3.4e100,
    ];
    for s in samples.iter() {
        let x = F64::from_bits(s.to_bits());
        assert_eq!(i64ord_to_f64(f64_to_i64ord(x)), x);
    }
}

#[test]
fn test_f64_ordinal_preserves_order() {
    let samples = [f64::MIN, -100.5f64, -0.125, 0.0, 0.125, 3.75, f64::MAX];
    for w in samples.windows(2) {
        let a = F64::from_bits(w[0].to_bits());
        let b = F64::from_bits(w[1].to_bits());
        assert!(f64_to_i64ord(a) < f64_to_i64ord(b));
    }
}
