//! Errors of connection establishment.

use vstd::prelude::*;

verus! {

/// `std::io::Error`, the error of a failed connect operation. The machine
/// only carries such a value from the attempt that produced it to the caller
/// and never looks inside.
#[verifier::external_type_specification]
#[verifier::external_body]
pub struct ExIoError(std::io::Error);

/// Why no connection could be established.
#[derive(Debug)]
pub enum ConnectError {
    /// The resolver produced no candidate address at all.
    Unresolved,
    /// Every candidate address was tried; this is the error of the last attempt.
    Io(std::io::Error),
}

} // verus!
