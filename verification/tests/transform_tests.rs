use rann_accel::{
    get_sample_vectors, xany_fallback_fma_add_value, xany_fallback_fma_div_value,
    xany_fallback_fma_mul_value, xany_fallback_fma_sub_value, xany_fallback_nofma_add_value,
    xany_fallback_nofma_div_value, xany_fallback_nofma_mul_value, xany_fallback_nofma_sub_value,
};

#[test]
fn mul_value_scales_every_element() {
    let mut arr = vec![1i64, -2, 3, 0, 5, -6, 7, 8, 9];
    xany_fallback_nofma_mul_value(&mut arr, 3);
    assert_eq!(arr, vec![3, -6, 9, 0, 15, -18, 21, 24, 27]);

    let mut arr = vec![4i64, -4];
    xany_fallback_fma_mul_value(&mut arr, -2);
    assert_eq!(arr, vec![-8, 8]);
}

#[test]
fn add_value_shifts_every_element() {
    let mut arr = vec![1i64, 2, 3];
    xany_fallback_nofma_add_value(&mut arr, 5);
    assert_eq!(arr, vec![6, 7, 8]);

    let mut arr = vec![0i64; 17];
    xany_fallback_fma_add_value(&mut arr, -1);
    assert_eq!(arr, vec![-1i64; 17]);
}

#[test]
fn sub_value_shifts_every_element() {
    let mut arr = vec![10i64, 20, 30, 40, 50, 60, 70, 80, 90, 100];
    xany_fallback_nofma_sub_value(&mut arr, 10);
    assert_eq!(arr, vec![0, 10, 20, 30, 40, 50, 60, 70, 80, 90]);

    let mut arr = vec![5i64];
    xany_fallback_fma_sub_value(&mut arr, 7);
    assert_eq!(arr, vec![-2]);
}

#[test]
fn div_value_divides_with_euclidean_quotient() {
    let mut arr = vec![12i64, 13, -12];
    xany_fallback_nofma_div_value(&mut arr, 4);
    assert_eq!(arr, vec![3, 3, -3]);

    let mut arr = vec![-7i64];
    xany_fallback_fma_div_value(&mut arr, 2);
    assert_eq!(arr, vec![-4]);
}

#[test]
fn scale_then_divide_restores_the_buffer() {
    let (original, _) = get_sample_vectors(100);

    let mut buf = original.clone();
    xany_fallback_nofma_mul_value(&mut buf, 7);
    xany_fallback_nofma_div_value(&mut buf, 7);
    assert_eq!(buf, original);

    let mut buf = original.clone();
    xany_fallback_fma_mul_value(&mut buf, -3);
    xany_fallback_fma_div_value(&mut buf, -3);
    assert_eq!(buf, original);
}
