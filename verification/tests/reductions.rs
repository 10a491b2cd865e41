use rann_accel::{
    get_sample_vectors, isqrt_u128, offsets_avx2, offsets_avx512, rollup_scalar_x8,
    xany_avx512_min_horizontal, xany_avx512_min_vertical, xconst_avx512_min_horizontal,
    xconst_avx512_min_vertical, StdMath, CHUNK_0,
};

#[test]
fn test_avx2_offsets() {
    let [p1, p2, p3, p4] = offsets_avx2::<CHUNK_0>(0);
    assert_eq!(p1, 0);
    assert_eq!(p2, 8);
    assert_eq!(p3, 16);
    assert_eq!(p4, 24);
}

#[test]
fn test_avx512_offsets() {
    let [p1, p2, p3, p4] = offsets_avx512::<CHUNK_0>(0);
    assert_eq!(p1, 0);
    assert_eq!(p2, 16);
    assert_eq!(p3, 32);
    assert_eq!(p4, 48);
}

#[test]
fn test_rollup_scalar_x8() {
    let res = rollup_scalar_x8::<StdMath>(0, 0, 0, 0, 0, 0, 0, 0);
    assert_eq!(res, 0);

    let res = rollup_scalar_x8::<StdMath>(1, 1, 1, 1, 1, 1, 1, 1);
    assert_eq!(res, 8);
}

#[test]
fn test_xconst_nofma_min_horizontal() {
    let (x, _) = get_sample_vectors(512);
    let min = xconst_avx512_min_horizontal::<512>(&x);
    assert_eq!(min, x.iter().fold(i64::MAX, |acc, v| acc.min(*v)));
}

#[test]
fn test_xconst_nofma_min_vertical() {
    let mut matrix = Vec::new();
    for _ in 0..25 {
        let (x, _) = get_sample_vectors(512);
        matrix.push(x);
    }

    let mut expected_vertical_min = vec![i64::MAX; 512];
    for i in 0..512 {
        let mut min = i64::MAX;
        for arr in matrix.iter() {
            min = min.min(arr[i]);
        }
        expected_vertical_min[i] = min;
    }

    let min = xconst_avx512_min_vertical::<512>(&matrix);
    assert_eq!(min, expected_vertical_min);
}

#[test]
fn test_xany_nofma_min_horizontal() {
    let (x, _) = get_sample_vectors(537);
    let min = xany_avx512_min_horizontal(&x);
    assert_eq!(min, x.iter().fold(i64::MAX, |acc, v| acc.min(*v)));
}

#[test]
fn test_xany_nofma_min_vertical() {
    let mut matrix = Vec::new();
    for _ in 0..25 {
        let (x, _) = get_sample_vectors(537);
        matrix.push(x);
    }

    let mut expected_vertical_min = vec![i64::MAX; 537];
    for i in 0..537 {
        let mut min = i64::MAX;
        for arr in matrix.iter() {
            min = min.min(arr[i]);
        }
        expected_vertical_min[i] = min;
    }

    let min = xany_avx512_min_vertical(&matrix);
    assert_eq!(min, expected_vertical_min);
}

#[test]
fn min_of_empty_vector_is_identity() {
    let x: Vec<i64> = Vec::new();
    assert_eq!(xany_avx512_min_horizontal(&x), i64::MAX);
}

#[test]
fn min_boundary_lengths() {
    for size in [1usize, 15, 16, 17, 127, 128, 129, 255, 256] {
        let (x, _) = get_sample_vectors(size);
        let expected = x.iter().fold(i64::MAX, |acc, v| acc.min(*v));
        assert_eq!(xany_avx512_min_horizontal(&x), expected);
    }
}

#[test]
fn isqrt_exact_values() {
    assert_eq!(isqrt_u128(0), 0);
    assert_eq!(isqrt_u128(1), 1);
    assert_eq!(isqrt_u128(2), 1);
    assert_eq!(isqrt_u128(3), 1);
    assert_eq!(isqrt_u128(4), 2);
    assert_eq!(isqrt_u128(15), 3);
    assert_eq!(isqrt_u128(16), 4);
    assert_eq!(isqrt_u128(144), 12);
    assert_eq!(isqrt_u128(1000000), 1000);
}
