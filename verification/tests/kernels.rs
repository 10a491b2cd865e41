use rann_accel::{
    get_sample_vectors, simple_cosine, simple_dot, simple_euclidean, x1024_avx2_cosine,
    x1024_avx2_dot, x1024_avx2_euclidean, x512_avx2_cosine, x512_avx2_dot, x512_avx2_euclidean,
    x768_avx2_cosine, x768_avx2_dot, x768_avx2_euclidean, xany_avx2_dot, xany_avx2_euclidean,
    xany_fallback_dot, xany_fallback_euclidean,
};

fn naive_euclidean(x: &[i64], y: &[i64]) -> i64 {
    let mut dist = 0i64;
    for i in 0..x.len() {
        let d = x[i] - y[i];
        dist += d * d;
    }
    dist
}

fn naive_dot(x: &[i64], y: &[i64]) -> i64 {
    let mut dot = 0i64;
    for i in 0..x.len() {
        dot += x[i] * y[i];
    }
    dot
}

#[test]
fn test_x1024_nofma_euclidean() {
    let (x, y) = get_sample_vectors(1024);
    let dist = x1024_avx2_euclidean(&x, &y);
    assert_eq!(dist, simple_euclidean(&x, &y));
}

#[test]
fn test_x768_nofma_euclidean() {
    let (x, y) = get_sample_vectors(768);
    let dist = x768_avx2_euclidean(&x, &y);
    assert_eq!(dist, simple_euclidean(&x, &y));
}

#[test]
fn test_x512_nofma_euclidean() {
    let (x, y) = get_sample_vectors(512);
    let dist = x512_avx2_euclidean(&x, &y);
    assert_eq!(dist, simple_euclidean(&x, &y));
}

#[test]
fn test_xany_nofma_euclidean() {
    let (x, y) = get_sample_vectors(127);
    let dist = xany_avx2_euclidean(&x, &y);
    assert_eq!(dist, simple_euclidean(&x, &y));
}

// Over the exact integer carrier the fused and the sequential policies
// compute the same value, so both policies' cases exercise one kernel.

#[test]
fn test_x1024_fma_euclidean() {
    let (x, y) = get_sample_vectors(1024);
    let dist = x1024_avx2_euclidean(&x, &y);
    assert_eq!(dist, simple_euclidean(&x, &y));
}

#[test]
fn test_x768_fma_euclidean() {
    let (x, y) = get_sample_vectors(768);
    let dist = x768_avx2_euclidean(&x, &y);
    assert_eq!(dist, simple_euclidean(&x, &y));
}

#[test]
fn test_x512_fma_euclidean() {
    let (x, y) = get_sample_vectors(512);
    let dist = x512_avx2_euclidean(&x, &y);
    assert_eq!(dist, simple_euclidean(&x, &y));
}

#[test]
fn test_xany_fma_euclidean() {
    let (x, y) = get_sample_vectors(127);
    let dist = xany_avx2_euclidean(&x, &y);
    assert_eq!(dist, simple_euclidean(&x, &y));
}

#[test]
fn cross_backend_euclidean_agreement() {
    for size in [0usize, 1, 7, 63, 64, 65, 127, 128, 129, 512] {
        let (x, y) = get_sample_vectors(size);
        let reference = naive_euclidean(&x, &y);
        assert_eq!(simple_euclidean(&x, &y), reference);
        assert_eq!(xany_fallback_euclidean(&x, &y), reference);
        assert_eq!(xany_avx2_euclidean(&x, &y), reference);
    }
}

#[test]
fn cross_backend_dot_agreement() {
    for size in [0usize, 1, 7, 63, 64, 65, 127, 128, 129, 512] {
        let (x, y) = get_sample_vectors(size);
        let reference = naive_dot(&x, &y);
        assert_eq!(simple_dot(&x, &y), reference);
        assert_eq!(xany_fallback_dot(&x, &y), reference);
        assert_eq!(xany_avx2_dot(&x, &y), reference);
    }
}

#[test]
fn fixed_and_any_length_agree() {
    for size in [512usize, 768, 1024] {
        let (x, y) = get_sample_vectors(size);
        let fixed_euclid = match size {
            512 => x512_avx2_euclidean(&x, &y),
            768 => x768_avx2_euclidean(&x, &y),
            _ => x1024_avx2_euclidean(&x, &y),
        };
        assert_eq!(fixed_euclid, xany_avx2_euclidean(&x, &y));
        let fixed_dot = match size {
            512 => x512_avx2_dot(&x, &y),
            768 => x768_avx2_dot(&x, &y),
            _ => x1024_avx2_dot(&x, &y),
        };
        assert_eq!(fixed_dot, xany_avx2_dot(&x, &y));
    }
}

#[test]
fn euclidean_exact_value() {
    let x = vec![1i64, 2, 3, 4];
    let y = vec![2i64, 4, 1, 0];
    assert_eq!(simple_euclidean(&x, &y), 1 + 4 + 4 + 16);
    assert_eq!(xany_fallback_euclidean(&x, &y), 25);
    assert_eq!(xany_avx2_euclidean(&x, &y), 25);
}

#[test]
fn dot_exact_value() {
    let x = vec![1i64, 2, 3];
    let y = vec![4i64, -5, 6];
    assert_eq!(simple_dot(&x, &y), 4 - 10 + 18);
    assert_eq!(xany_fallback_dot(&x, &y), 12);
    assert_eq!(xany_avx2_dot(&x, &y), 12);
}

#[test]
fn cosine_fixed_lengths_match_simple() {
    for size in [512usize, 768, 1024] {
        let (x, y) = get_sample_vectors(size);
        let fixed = match size {
            512 => x512_avx2_cosine(&x, &y),
            768 => x768_avx2_cosine(&x, &y),
            _ => x1024_avx2_cosine(&x, &y),
        };
        assert_eq!(fixed, simple_cosine(&x, &y));
    }
}

#[test]
fn cosine_zero_zero_is_zero() {
    let x = vec![0i64; 512];
    let y = vec![0i64; 512];
    assert_eq!(x512_avx2_cosine(&x, &y), 0);
    assert_eq!(simple_cosine(&x, &y), 0);
}

#[test]
fn cosine_zero_nonzero_is_one() {
    let x = vec![0i64; 512];
    let mut y = vec![0i64; 512];
    y[17] = 3;
    assert_eq!(x512_avx2_cosine(&x, &y), 1);
    assert_eq!(simple_cosine(&x, &y), 1);
    assert_eq!(simple_cosine(&y, &x), 1);
}

#[test]
fn cosine_exact_values() {
    assert_eq!(simple_cosine(&[3], &[4]), 0);
    assert_eq!(simple_cosine(&[1], &[-1]), 2);
    assert_eq!(simple_cosine(&[2, 0], &[2, 0]), 0);
}

#[test]
fn sample_vectors_are_deterministic_and_bounded() {
    let (x1, y1) = get_sample_vectors(64);
    let (x2, y2) = get_sample_vectors(64);
    assert_eq!(x1.len(), 64);
    assert_eq!(y1.len(), 64);
    assert_eq!(x1, x2);
    assert_eq!(y1, y2);
    assert!(x1.iter().all(|v| -262144 <= *v && *v <= 262144));
    assert!(y1.iter().all(|v| -262144 <= *v && *v <= 262144));
}
