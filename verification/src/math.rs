use vstd::prelude::*;

verus! {

/// Marker for a numeric accumulation policy: either standard sequential
/// multiply-then-add arithmetic or fused-multiply-add arithmetic.
///
/// A policy affects only how partial results would be rounded on a
/// floating-point unit, never the mathematical operation performed. Over the
/// exact integer carrier used here the two disciplines therefore compute the
/// same value, and the marker selects nothing but which hardware path an
/// embedding program pairs a kernel with.
pub trait Math {
}

/// Standard sequential arithmetic: every multiply and add rounds on its own.
#[derive(Debug, Clone, Copy)]
pub struct StdMath;

impl Math for StdMath {}

/// Fused arithmetic: a multiply and the following add round once.
#[derive(Debug, Clone, Copy)]
pub struct FastMath;

impl Math for FastMath {}

/// The policy a kernel falls back to when the caller expresses no choice.
#[derive(Debug, Clone, Copy)]
pub struct AutoMath;

impl Math for AutoMath {}

} // verus!
