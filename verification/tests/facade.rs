use rann_accel::{
    add_in_place, cosine_distance, div_in_place, dot_product, euclidean, get_sample_vectors,
    horizontal_min, scale_in_place, simple_cosine, simple_dot, simple_euclidean, sub_in_place,
    vertical_min, Auto, CpuFeatures,
};

fn all_tokens() -> Vec<Auto> {
    let mut tokens = Vec::new();
    for avx512f in [false, true] {
        for avx2 in [false, true] {
            for fma in [false, true] {
                tokens.push(Auto::new(CpuFeatures { avx512f, avx2, fma }));
            }
        }
    }
    tokens
}

#[test]
fn facade_agrees_across_all_tokens() {
    for size in [63usize, 64, 65, 127, 128, 129, 512, 768, 1024] {
        let (x, y) = get_sample_vectors(size);
        let expected_euclid = simple_euclidean(&x, &y);
        let expected_dot = simple_dot(&x, &y);
        let expected_cosine = simple_cosine(&x, &y);
        for token in all_tokens() {
            assert_eq!(euclidean(token, &x, &y), expected_euclid);
            assert_eq!(dot_product(token, &x, &y), expected_dot);
            assert_eq!(cosine_distance(token, &x, &y), expected_cosine);
        }
    }
}

#[test]
fn facade_min_matches_direct_fold() {
    let token = Auto::default();
    let (x, _) = get_sample_vectors(512);
    assert_eq!(
        horizontal_min(token, &x),
        x.iter().fold(i64::MAX, |acc, v| acc.min(*v))
    );

    let mut matrix = Vec::new();
    for _ in 0..25 {
        let (row, _) = get_sample_vectors(512);
        matrix.push(row);
    }
    let mins = vertical_min(token, &matrix);
    for j in 0..512 {
        let mut expected = i64::MAX;
        for row in matrix.iter() {
            expected = expected.min(row[j]);
        }
        assert_eq!(mins[j], expected);
    }
}

#[test]
fn facade_in_place_transforms() {
    let mut buf = vec![1i64, -2, 3];
    scale_in_place(&mut buf, 4);
    assert_eq!(buf, vec![4, -8, 12]);
    add_in_place(&mut buf, 1);
    assert_eq!(buf, vec![5, -7, 13]);
    sub_in_place(&mut buf, 2);
    assert_eq!(buf, vec![3, -9, 11]);
    div_in_place(&mut buf, 3);
    assert_eq!(buf, vec![1, -3, 3]);
}
