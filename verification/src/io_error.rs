//! Failures of reading and writing, as the standard library reports them.

use vstd::prelude::*;

verus! {

/// Makes `std::io::Error` known as a type whose inside is not looked at.
#[verifier::external_type_specification]
#[verifier::external_body]
pub struct ExIoError(std::io::Error);

/// Calls `to_string` on a `std::io::Error`, which formats the error as it
/// displays itself. Nothing is claimed of the text.
#[verifier::external_body]
pub(crate) fn io_error_text(error: &std::io::Error) -> (text: String) {
    error.to_string()
}

} // verus!
