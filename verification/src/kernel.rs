//! Dot-product kernel selection.

use vstd::prelude::*;

verus! {

/// Dot-product kernel selected by an inference runtime.
#[derive(Debug, Clone, Copy, PartialEq, Eq, Structural)]
pub enum DotProductKernel {
    /// Straight scalar dot product with wide accumulation.
    Scalar,
    /// Unrolled kernel intended for compiler auto-vectorization.
    AutoVectorized,
}

impl DotProductKernel {
    /// Returns the default kernel for CPU inference.
    pub fn default_cpu() -> (k: Self)
        ensures
            k == DotProductKernel::AutoVectorized,
    {
        Self::AutoVectorized
    }
}

impl Default for DotProductKernel {
    fn default() -> (k: Self)
        ensures
            k == DotProductKernel::AutoVectorized,
    {
        Self::default_cpu()
    }
}

} // verus!
