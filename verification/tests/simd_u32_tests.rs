use argminmax::scalar::scalar_argminmax;
use argminmax::simd_u32::argminmax_u32;

fn lcg_next(state: &mut u64) -> u64 {
    *state = state
        .wrapping_mul(6364136223846793005)
        .wrapping_add(1442695040888963407);
    *state
}

fn get_array_u32(n: usize, state: &mut u64) -> Vec<u32> {
    (0..n).map(|_| (lcg_next(state) >> 24) as u32).collect()
}

#[test]
fn test_both_versions_return_the_same_results() {
    let mut state: u64 = 0xacc01ade;
    let data = get_array_u32(513, &mut state);
    assert_eq!(data.len() % 16, 1);

    let (argmin_index, argmax_index) = scalar_argminmax(&data);
    let (simd_argmin_index, simd_argmax_index) = argminmax_u32(&data);
    assert_eq!(argmin_index, simd_argmin_index);
    assert_eq!(argmax_index, simd_argmax_index);
}

#[test]
fn test_first_index_is_returned_when_identical_values_found() {
    let data = [
        10,
        u32::MIN,
        6,
        9,
        9,
        22,
        u32::MAX,
        4,
        u32::MAX,
    ];
    let data: Vec<u32> = data.iter().map(|x| *x).collect();

    let (argmin_index, argmax_index) = scalar_argminmax(&data);
    assert_eq!(argmin_index, 1);
    assert_eq!(argmax_index, 6);

    let (argmin_simd_index, argmax_simd_index) = argminmax_u32(&data);
    assert_eq!(argmin_simd_index, 1);
    assert_eq!(argmax_simd_index, 6);
}

#[test]
fn test_many_random_runs() {
    let mut state: u64 = 0xdecade;
    for _ in 0..10_000 {
        let data = get_array_u32(32 * 8 + 1, &mut state);
        let (argmin_index, argmax_index) = scalar_argminmax(&data);
        let (argmin_simd_index, argmax_simd_index) = argminmax_u32(&data);
        assert_eq!(argmin_index, argmin_simd_index);
        assert_eq!(argmax_index, argmax_simd_index);
    }
}

#[test]
fn test_lane_width_boundary_lengths() {
    // one lane width, one more, one less: exercises the remainder folding
    for n in [7usize, 8, 9, 15, 16, 17] {
        let mut data: Vec<u32> = (0..n as u32).map(|x| 1000 + x).collect();
        data[n - 1] = 1; // minimum at the tail
        data[n / 2] = 100_000; // maximum in the middle
        let (argmin_index, argmax_index) = argminmax_u32(&data);
        assert_eq!(argmin_index, n - 1);
        assert_eq!(argmax_index, n / 2);

        let (scalar_min, scalar_max) = scalar_argminmax(&data);
        assert_eq!(argmin_index, scalar_min);
        assert_eq!(argmax_index, scalar_max);
    }
}

#[test]
fn test_vector_tie_break_across_chunks() {
    // equal minima and maxima in different chunks and different lanes:
    // the first occurrence must win in both engines
    let mut data: Vec<u32> = vec![500; 40];
    data[11] = 3;
    data[29] = 3;
    data[5] = 900;
    data[13] = 900;
    let (argmin_index, argmax_index) = argminmax_u32(&data);
    assert_eq!(argmin_index, 11);
    assert_eq!(argmax_index, 5);

    let (scalar_min, scalar_max) = scalar_argminmax(&data);
    assert_eq!(scalar_min, 11);
    assert_eq!(scalar_max, 5);
}
