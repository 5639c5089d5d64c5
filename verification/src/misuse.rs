//! Fatal misuse conditions.
//!
//! These mark programming errors, not data errors: operations that are
//! structurally unsupported and must fail loudly whatever their input.
//! They are distinct from recoverable validation failures, construction
//! errors and data-integrity errors, and must never be reachable from
//! untrusted network input.

use vstd::prelude::*;

verus! {

/// An operation that no input can make succeed was invoked.
#[derive(Clone, Copy, PartialEq, Eq, Structural, Debug)]
pub enum MisuseError {
    /// Concealment of fungible state was requested while no sound
    /// range-proof backend is linked: a commitment without a range proof
    /// must never be fabricated.
    BulletproofsUnsupported,
    /// The single unconditional entry point of a program container was
    /// requested: the correct entry point is always a function of the
    /// validation hook under evaluation.
    NoUniversalEntryPoint,
}

} // verus!
