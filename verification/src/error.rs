use vstd::prelude::*;

verus! {

/// The failure modes of the inlet-design core.
///
/// Every fallible operation in this crate reports one of these values; nothing
/// in the core panics, clamps, or silently substitutes a default.
#[derive(Clone, Copy, Debug, PartialEq, Eq, Structural)]
pub enum FlowError {
    /// The ratio of specific heats lies outside the physically meaningful range.
    InvalidSpecificHeatRatio,
    /// A velocity state is subsonic, or sits on the sonic singularity of the
    /// Taylor-Maccoll equations.
    InvalidMachNumber,
    /// A required input value was not supplied.
    MissingValues,
    /// Undefined arithmetic: a zero denominator, or a value that does not fit
    /// the fixed-point range.
    MathError,
    /// A root-finding bracket does not enclose a sign change.
    BracketError,
    /// An iteration budget was exhausted before convergence.
    NonConvergenceError,
    /// An input lies outside a function's valid domain.
    DomainError,
}

} // verus!
