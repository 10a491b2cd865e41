use rann_accel::{
    Auto, Avx2, Avx2Fma, Avx512, CapabilityError, CpuFeatures, Fallback, SelectedArch,
};

fn features(avx512f: bool, avx2: bool, fma: bool) -> CpuFeatures {
    CpuFeatures { avx512f, avx2, fma }
}

#[test]
fn specific_tokens_fail_without_their_feature() {
    assert_eq!(
        Avx2::new(features(false, false, false)).err(),
        Some(CapabilityError::Avx2Unsupported)
    );
    assert_eq!(
        Avx512::new(features(false, true, true)).err(),
        Some(CapabilityError::Avx512Unsupported)
    );
    assert_eq!(
        Avx2Fma::new(features(false, true, false)).err(),
        Some(CapabilityError::FmaUnsupported)
    );
    assert_eq!(
        Avx2Fma::new(features(false, false, true)).err(),
        Some(CapabilityError::Avx2Unsupported)
    );
}

#[test]
fn specific_tokens_succeed_with_their_feature() {
    assert!(Avx2::new(features(false, true, false)).is_ok());
    assert!(Avx2Fma::new(features(false, true, true)).is_ok());
    assert!(Avx512::new(features(true, false, false)).is_ok());
    let _always = Fallback::new();
    let _also: Fallback = Default::default();
}

#[test]
fn auto_never_fails_and_selects_by_priority() {
    assert_eq!(
        Auto::new(features(true, true, true)).selected(),
        SelectedArch::Avx512
    );
    assert_eq!(
        Auto::new(features(false, true, true)).selected(),
        SelectedArch::Avx2Fma
    );
    assert_eq!(
        Auto::new(features(false, true, false)).selected(),
        SelectedArch::Avx2
    );
    assert_eq!(
        Auto::new(features(false, false, true)).selected(),
        SelectedArch::Fallback
    );
    assert_eq!(
        Auto::new(features(false, false, false)).selected(),
        SelectedArch::Fallback
    );
    assert_eq!(Auto::default().selected(), SelectedArch::Fallback);
}

#[test]
fn select_prefers_widest_simd_over_fma() {
    assert_eq!(
        SelectedArch::select(CpuFeatures { avx512f: true, avx2: false, fma: false }),
        SelectedArch::Avx512
    );
}
