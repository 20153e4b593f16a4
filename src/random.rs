//! The system's random number source.
use vstd::prelude::*;

verus! {

#[verifier::external_type_specification]
#[verifier::external_body]
pub struct ExRandomError(getrandom::Error);

/// Relies on getrandom::u32: a value drawn from the system's random source,
/// or the error that source reported. Nothing is known of the value.
#[verifier::external_body]
pub(crate) fn random_u32() -> (r: Result<u32, getrandom::Error>) {
    getrandom::u32()
}

} // verus!
