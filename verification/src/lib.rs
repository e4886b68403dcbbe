//! A verified model of a zero-knowledge proof lifecycle: deriving a
//! verification key from a circuit artifact and setup parameters, generating a
//! proof over a sequence of inputs, and verifying a proof against a key.
//!
//! The cryptographic backend itself (polynomial commitments, curve
//! arithmetic, SRS handling) is out of scope; this crate specifies and
//! implements the lifecycle contract around it with a transparent model
//! backend: artifacts are deterministic, structured byte sequences, and every
//! operation is a pure function of its arguments with a proved functional
//! contract.
use vstd::prelude::*;

pub mod circuit;
pub mod codec;
pub mod errors;
pub mod laws;
pub mod model;
pub mod noir;

pub use errors::LifecycleError;
pub use noir::generate_noir_proof;
pub use noir::get_noir_verification_key;
pub use noir::verify_noir_proof;

verus! {

broadcast use vstd::string::group_string_axioms;

/// Fixed greeting confirming that the library is wired up and callable.
pub fn mopro_uniffi_hello_world() -> (r: String)
    ensures
        r@ == "Hello, World!"@,
{
    "Hello, World!".to_string()
}

} // verus!
