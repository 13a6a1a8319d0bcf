use argminmax::f16_ord::F16;
use argminmax::f32_ord::F32;
use argminmax::f64_ord::F64;
use argminmax::ArgMinMax;
use half::f16;

#[test]
fn test_trait_i16_slice() {
    let data: Vec<i16> = vec![3, -7, 12, -7, 12, 0];
    let (argmin_index, argmax_index) = (&data[..]).argminmax();
    assert_eq!(argmin_index, 1);
    assert_eq!(argmax_index, 2);
}

#[test]
fn test_trait_i32_slice() {
    let data: Vec<i32> = vec![i32::MAX, 5, i32::MIN, 5, i32::MIN, i32::MAX];
    let (argmin_index, argmax_index) = (&data[..]).argminmax();
    assert_eq!(argmin_index, 2);
    assert_eq!(argmax_index, 0);
}

#[test]
fn test_trait_i64_slice() {
    let data: Vec<i64> = vec![-1, -2, -3, -4, -5];
    let (argmin_index, argmax_index) = (&data[..]).argminmax();
    assert_eq!(argmin_index, 4);
    assert_eq!(argmax_index, 0);
}

#[test]
fn test_trait_u32_slice_uses_identical_semantics() {
    // long enough to run through the lane-parallel engine
    let mut data: Vec<u32> = (0..100u32).map(|x| 100 + (x * 7919) % 1000).collect();
    data[63] = 0;
    data[64] = 0;
    let (argmin_index, argmax_index) = (&data[..]).argminmax();
    assert_eq!(data[argmin_index], 0);
    assert_eq!(argmin_index, 63);
    assert!(data.iter().all(|&v| v <= data[argmax_index]));
}

#[test]
fn test_trait_single_element() {
    let data: Vec<i32> = vec![42];
    let (argmin_index, argmax_index) = (&data[..]).argminmax();
    assert_eq!(argmin_index, 0);
    assert_eq!(argmax_index, 0);
}

#[test]
fn test_trait_f16_slice_nan_short_circuit() {
    let mut data: Vec<F16> = (0..20)
        .map(|x| F16::from_bits(f16::from_f32(x as f32).to_bits()))
        .collect();
    data[7] = F16::from_bits(f16::NAN.to_bits());
    data[12] = F16::from_bits(f16::NAN.to_bits());
    let (argmin_index, argmax_index) = (&data[..]).argminmax();
    assert_eq!(argmin_index, 7);
    assert_eq!(argmax_index, 7);
}

#[test]
fn test_trait_f32_slice() {
    let values: Vec<f32> = vec![1.0, -3.5, 2.5, -3.5, 9.75, 9.75];
    let data: Vec<F32> = values.iter().map(|v| F32::from_bits(v.to_bits())).collect();
    let (argmin_index, argmax_index) = (&data[..]).argminmax();
    assert_eq!(argmin_index, 1);
    assert_eq!(argmax_index, 4);
}

#[test]
fn test_trait_f32_all_nan() {
    let data: Vec<F32> = (0..5).map(|_| F32::from_bits(f32::NAN.to_bits())).collect();
    let (argmin_index, argmax_index) = (&data[..]).argminmax();
    assert_eq!(argmin_index, 0);
    assert_eq!(argmax_index, 0);
}

#[test]
fn test_trait_f64_slice_nan_positions() {
    let len: usize = 33;
    for pos in [0usize, len / 2, len - 1] {
        let mut data: Vec<F64> = (0..len)
            .map(|x| F64::from_bits((x as f64).to_bits()))
            .collect();
        data[pos] = F64::from_bits(f64::NAN.to_bits());
        let (argmin_index, argmax_index) = (&data[..]).argminmax();
        assert_eq!(argmin_index, pos);
        assert_eq!(argmax_index, pos);
    }
}

#[test]
fn test_trait_f64_negative_zero_below_positive_zero() {
    // the ordinal order distinguishes the two zero patterns
    let data: Vec<F64> = vec![
        F64::from_bits(0.0f64.to_bits()),
        F64::from_bits((-0.0f64).to_bits()),
    ];
    let (argmin_index, argmax_index) = (&data[..]).argminmax();
    assert_eq!(argmin_index, 1);
    assert_eq!(argmax_index, 0);
}
