use argminmax::f16_ord::{scalar_argminmax_f16, F16};
use argminmax::scalar::scalar_argminmax;
use half::f16;

fn lcg_next(state: &mut u64) -> u64 {
    *state = state
        .wrapping_mul(6364136223846793005)
        .wrapping_add(1442695040888963407);
    *state
}

fn get_array_f16(len: usize, state: &mut u64) -> Vec<F16> {
    (0..len)
        .map(|_| {
            let v = (lcg_next(state) >> 16) as u16 as i16;
            F16::from_bits(f16::from_f32(v as f32).to_bits())
        })
        .collect()
}

#[test]
fn test_generic_and_specific_impl_return_the_same_results() {
    let mut state: u64 = 0x5eed;
    for _ in 0..100 {
        let data: &[F16] = &get_array_f16(1025, &mut state);
        let (argmin_index, argmax_index) = scalar_argminmax(data);
        let (argmin_index_f16, argmax_index_f16) = scalar_argminmax_f16(data);
        assert_eq!(argmin_index, argmin_index_f16);
        assert_eq!(argmax_index, argmax_index_f16);
    }
}

#[test]
fn test_generic_and_specific_impl_return_nans() {
    let arr_len: usize = 1025;
    let mut state: u64 = 0xbead;

    // first, middle, last element
    let nan_pos: [usize; 3] = [0, arr_len / 2, arr_len - 1];
    for pos in nan_pos.iter() {
        let mut data: Vec<F16> = get_array_f16(arr_len, &mut state);
        data[*pos] = F16::from_bits(f16::NAN.to_bits());
        let (argmin_index, argmax_index) = scalar_argminmax(&data);
        let (argmin_index_f16, argmax_index_f16) = scalar_argminmax_f16(&data);
        assert_eq!(argmin_index, argmin_index_f16);
        assert_eq!(argmax_index, argmax_index_f16);
        assert_eq!(argmin_index, *pos);
        assert_eq!(argmax_index, *pos);
    }

    // All elements are NaN
    let mut data: Vec<F16> = get_array_f16(arr_len, &mut state);
    for i in 0..arr_len {
        data[i] = F16::from_bits(f16::NAN.to_bits());
    }
    let (argmin_index, argmax_index) = scalar_argminmax(&data);
    let (argmin_index_f16, argmax_index_f16) = scalar_argminmax_f16(&data);
    assert_eq!(argmin_index, argmin_index_f16);
    assert_eq!(argmax_index, argmax_index_f16);
    assert_eq!(argmin_index, 0);
    assert_eq!(argmax_index, 0);
}
