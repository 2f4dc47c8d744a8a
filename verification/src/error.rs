use vstd::prelude::*;

verus! {

/// Why an operation refused its input.
#[derive(Clone, Copy, Debug, PartialEq, Eq, Structural)]
pub enum Error {
    /// The trailing dimension of a point or of a batch of points is not 2.
    ShapeMismatch,
    /// The kernel holds no sample.
    InvalidKernel,
    /// The sequence is shorter than the operation needs.
    InsufficientSamples,
    /// A scalar argument lies outside the operation's domain.
    InvalidArgument,
}

} // verus!
