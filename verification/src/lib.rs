//! A numeric kernel engine for dense vectors: distance and reduction metrics
//! (squared Euclidean distance, cosine distance, dot product, horizontal and
//! vertical minimum) and in-place elementwise transforms, together with
//! runtime capability tokens that pin backend selection to the host's
//! feature flags.
//!
//! Every kernel works over an exact integer carrier, so each one carries a
//! contract that pins its result to the mathematical value it stands for,
//! and the block, lane and remainder structure of each hardware backend is
//! reproduced and proved against the plain element-by-element definition.
//! The unsafe floating-point fast paths that mirror these kernels live with
//! the embedding program, outside this library.

mod arch;
mod cosine;
mod dispatch;
mod dot;
mod euclidean;
mod folds;
mod math;
mod min;
mod roots;
mod test_utils;
mod transforms;
mod utils;

pub use arch::Arch;
pub use arch::Auto;
pub use arch::Avx2;
pub use arch::Avx2Fma;
pub use arch::Avx512;
pub use arch::CapabilityError;
pub use arch::CpuFeatures;
pub use arch::Fallback;
pub use arch::Fma;
pub use arch::NoFma;
pub use arch::SelectedArch;
pub use arch::lemma_selected_arch_supported;
pub use arch::spec_arch_supported;
pub use arch::spec_select_arch;

pub use dispatch::add_in_place;
pub use dispatch::cosine_distance;
pub use dispatch::div_in_place;
pub use dispatch::dot_product;
pub use dispatch::euclidean;
pub use dispatch::horizontal_min;
pub use dispatch::lemma_cosine_backends_agree;
pub use dispatch::lemma_dot_backends_agree;
pub use dispatch::lemma_euclidean_backends_agree;
pub use dispatch::scale_in_place;
pub use dispatch::sub_in_place;
pub use dispatch::vertical_min;

pub use folds::MAX_DIM;
pub use folds::MAX_MAG;
pub use folds::bounded;
pub use folds::dot_range;
pub use folds::is_zero_vec;
pub use folds::lemma_dot_range_bound;
pub use folds::lemma_dot_range_self_nonneg;
pub use folds::lemma_dot_range_self_positive;
pub use folds::lemma_dot_range_split;
pub use folds::lemma_min_range_members;
pub use folds::lemma_min_range_split;
pub use folds::lemma_sq_euclid_range_split;
pub use folds::min2;
pub use folds::min_range;
pub use folds::spec_dot;
pub use folds::spec_min;
pub use folds::spec_sq_euclid;
pub use folds::sq_euclid_range;

pub use math::AutoMath;
pub use math::FastMath;
pub use math::Math;
pub use math::StdMath;

pub use utils::ACC_CAP;
pub use utils::CHUNK_0;
pub use utils::CHUNK_1;
pub use utils::cosine;
pub use utils::offsets_avx2;
pub use utils::offsets_avx512;
pub use utils::rollup_scalar_x8;
pub use utils::spec_cosine;

pub use roots::isqrt_u128;
pub use roots::lemma_isqrt_bounds;
pub use roots::lemma_isqrt_unique;
pub use roots::spec_isqrt;

pub use dot::x1024_avx2_dot;
pub use dot::x512_avx2_dot;
pub use dot::x768_avx2_dot;
pub use dot::xany_avx2_dot;
pub use dot::xany_fallback_dot;

pub use euclidean::x1024_avx2_euclidean;
pub use euclidean::x512_avx2_euclidean;
pub use euclidean::x768_avx2_euclidean;
pub use euclidean::xany_avx2_euclidean;
pub use euclidean::xany_fallback_euclidean;

pub use cosine::lemma_cosine_zero_nonzero;
pub use cosine::lemma_cosine_zero_zero;
pub use cosine::spec_cosine_distance;
pub use cosine::x1024_avx2_cosine;
pub use cosine::x512_avx2_cosine;
pub use cosine::x768_avx2_cosine;

pub use min::col_min_range;
pub use min::min8;
pub use min::spec_col_min;
pub use min::uniform_rows;
pub use min::xany_avx512_min_horizontal;
pub use min::xany_avx512_min_vertical;
pub use min::xconst_avx512_min_horizontal;
pub use min::xconst_avx512_min_vertical;

pub use transforms::lemma_scale_then_divide_restores;
pub use transforms::xany_fallback_fma_add_value;
pub use transforms::xany_fallback_fma_div_value;
pub use transforms::xany_fallback_fma_mul_value;
pub use transforms::xany_fallback_fma_sub_value;
pub use transforms::xany_fallback_nofma_add_value;
pub use transforms::xany_fallback_nofma_div_value;
pub use transforms::xany_fallback_nofma_mul_value;
pub use transforms::xany_fallback_nofma_sub_value;

pub use test_utils::get_sample_vectors;
pub use test_utils::simple_cosine;
pub use test_utils::simple_dot;
pub use test_utils::simple_euclidean;
