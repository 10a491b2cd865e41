use vstd::prelude::*;

verus! {

/// CPU feature flags relevant to backend selection, as plain booleans.
///
/// The library never probes the CPU itself: the embedding program reads the
/// host's feature flags once and hands them in here, and every selection and
/// validation decision made from them is verified.
#[derive(Debug, Clone, Copy)]
pub struct CpuFeatures {
    /// 512-bit wide SIMD is available.
    pub avx512f: bool,
    /// 256-bit wide SIMD is available.
    pub avx2: bool,
    /// Fused multiply-add is available.
    pub fma: bool,
}

/// The reason a capability token could not be constructed: the host lacks
/// the feature level the token stands for.
#[derive(Debug, Clone, Copy, PartialEq, Eq, Structural)]
pub enum CapabilityError {
    Avx2Unsupported,
    FmaUnsupported,
    Avx512Unsupported,
}

/// 256-bit-SIMD enabled architectures.
#[derive(Debug, Clone, Copy)]
pub struct Avx2(());

impl Avx2 {
    /// A token for the 256-bit SIMD feature level: constructible exactly when
    /// the host reports that feature.
    pub fn new(features: CpuFeatures) -> (r: Result<Avx2, CapabilityError>)
        ensures
            r is Ok <==> features.avx2,
            r is Err ==> r->Err_0 == CapabilityError::Avx2Unsupported,
    {
        if features.avx2 {
            Ok(Avx2(()))
        } else {
            Err(CapabilityError::Avx2Unsupported)
        }
    }
}

/// 256-bit-SIMD + fused-multiply-add enabled architectures.
#[derive(Debug, Clone, Copy)]
pub struct Avx2Fma(());

impl Avx2Fma {
    /// A token for the 256-bit SIMD + FMA feature level: constructible exactly
    /// when the host reports both features.
    pub fn new(features: CpuFeatures) -> (r: Result<Avx2Fma, CapabilityError>)
        ensures
            r is Ok <==> (features.avx2 && features.fma),
            r is Err ==> (r->Err_0 == CapabilityError::Avx2Unsupported
                || r->Err_0 == CapabilityError::FmaUnsupported),
            r is Err && features.avx2 ==> r->Err_0 == CapabilityError::FmaUnsupported,
            r is Err && !features.avx2 ==> r->Err_0 == CapabilityError::Avx2Unsupported,
    {
        if !features.avx2 {
            Err(CapabilityError::Avx2Unsupported)
        } else if !features.fma {
            Err(CapabilityError::FmaUnsupported)
        } else {
            Ok(Avx2Fma(()))
        }
    }
}

/// 512-bit-SIMD enabled architectures.
#[derive(Debug, Clone, Copy)]
pub struct Avx512(());

impl Avx512 {
    /// A token for the 512-bit SIMD feature level: constructible exactly when
    /// the host reports that feature.
    pub fn new(features: CpuFeatures) -> (r: Result<Avx512, CapabilityError>)
        ensures
            r is Ok <==> features.avx512f,
            r is Err ==> r->Err_0 == CapabilityError::Avx512Unsupported,
    {
        if features.avx512f {
            Ok(Avx512(()))
        } else {
            Err(CapabilityError::Avx512Unsupported)
        }
    }
}

/// No specialised features detected, fallback impls.
#[derive(Debug, Clone, Copy)]
pub struct Fallback(());

impl Fallback {
    /// The portable feature level has no hardware requirement, so this token
    /// always exists.
    pub fn new() -> (r: Fallback) {
        Fallback(())
    }
}

impl Default for Fallback {
    fn default() -> (r: Fallback) {
        Fallback(())
    }
}

/// The feature level a set of kernels was selected for.
#[derive(Debug, Clone, Copy, PartialEq, Eq, Structural)]
pub enum SelectedArch {
    Avx2,
    Avx2Fma,
    Avx512,
    Fallback,
}

/// The backend that the selection policy picks for the given features:
/// widest SIMD first, then wide SIMD with FMA, then wide SIMD alone, then
/// the portable fallback.
pub open spec fn spec_select_arch(features: CpuFeatures) -> SelectedArch {
    if features.avx512f {
        SelectedArch::Avx512
    } else if features.avx2 && features.fma {
        SelectedArch::Avx2Fma
    } else if features.avx2 {
        SelectedArch::Avx2
    } else {
        SelectedArch::Fallback
    }
}

/// A backend's hardware requirements hold under the given features.
pub open spec fn spec_arch_supported(arch: SelectedArch, features: CpuFeatures) -> bool {
    match arch {
        SelectedArch::Avx512 => features.avx512f,
        SelectedArch::Avx2Fma => features.avx2 && features.fma,
        SelectedArch::Avx2 => features.avx2,
        SelectedArch::Fallback => true,
    }
}

impl SelectedArch {
    /// Picks the best backend the given features allow, in strict priority
    /// order. This never fails: with no feature present it degrades to the
    /// portable fallback.
    pub fn select(features: CpuFeatures) -> (r: SelectedArch)
        ensures
            r == spec_select_arch(features),
    {
        if features.avx512f {
            SelectedArch::Avx512
        } else if features.avx2 && features.fma {
            SelectedArch::Avx2Fma
        } else if features.avx2 {
            SelectedArch::Avx2
        } else {
            SelectedArch::Fallback
        }
    }
}

/// Whatever the host reports, the backend the selection policy picks is one
/// whose declared hardware requirements the host meets.
pub proof fn lemma_selected_arch_supported(features: CpuFeatures)
    ensures
        spec_arch_supported(spec_select_arch(features), features),
{
}

/// A dynamically selected arch.
///
/// This holds the best feature set available among the flags it was built
/// from; unlike the specific tokens it is always constructible.
#[derive(Debug, Clone, Copy)]
pub struct Auto(SelectedArch);

impl Auto {
    /// The backend this token settled on at construction time.
    pub closed spec fn selection(&self) -> SelectedArch {
        self.0
    }

    /// Resolves the best backend for the given features. Never fails.
    pub fn new(features: CpuFeatures) -> (r: Auto)
        ensures
            r.selection() == spec_select_arch(features),
    {
        Auto(SelectedArch::select(features))
    }

    /// The backend this token selected at construction time.
    pub fn selected(&self) -> (r: SelectedArch)
        ensures
            r == self.selection(),
    {
        self.0
    }
}

impl Default for Auto {
    /// With no feature information the resolver degrades to the portable
    /// backend, which every host supports.
    fn default() -> (r: Auto)
        ensures
            r.selection() == SelectedArch::Fallback,
    {
        Auto(SelectedArch::Fallback)
    }
}

/// Marker for the capability tokens: a value of an implementing type proves
/// at construction time that its feature level is available.
pub trait Arch {
}

impl Arch for Avx2 {}

impl Arch for Avx2Fma {}

impl Arch for Avx512 {}

impl Arch for Auto {}

impl Arch for Fallback {}

/// Enables fused-multiply-add instructions.
#[derive(Debug, Clone, Copy)]
pub struct Fma;

/// Disables fused-multiply-add instructions.
#[derive(Debug, Clone, Copy)]
pub struct NoFma;

} // verus!
