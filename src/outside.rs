//! The error type of std that the library's errors carry.
use vstd::prelude::*;

verus! {

/// `std::io::Error`, carried as the cause of a failed read or spawn.
#[verifier::external_type_specification]
#[verifier::external_body]
pub struct ExIoError(std::io::Error);

} // verus!
