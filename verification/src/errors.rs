//! The error taxonomy of the proof lifecycle. Every failure of key
//! derivation, proof generation or proof verification is reported as one of
//! these variants; none is silently swallowed.
use vstd::prelude::*;

verus! {

/// Why a lifecycle operation failed.
#[derive(Clone, Copy, Debug, PartialEq, Eq, Structural)]
pub enum LifecycleError {
    /// The circuit artifact reference could not be resolved to a circuit.
    CircuitLoadError,
    /// Setup parameters were missing although the scheme requires them, or
    /// the setup reference was unusable.
    SetupMismatchError,
    /// The number of supplied inputs does not match the circuit's declared
    /// input signature.
    InputArityError,
    /// The inputs do not satisfy the circuit's constraints; constraints are
    /// checked at generation time.
    ConstraintUnsatisfiedError,
    /// The supplied verification key was not derived from this circuit,
    /// setup and mode combination.
    KeyMismatchError,
    /// The proof artifact is structurally malformed (as opposed to
    /// well-formed but invalid, which verification reports as `false`).
    ProofFormatError,
    /// Reserved for faults of an underlying cryptographic backend; the model
    /// backend is total and never reports it.
    BackendError,
}

} // verus!
