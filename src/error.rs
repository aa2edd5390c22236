//! Errors shared by both capture frontends.

use vstd::prelude::*;

verus! {

/// Why a capture source could not be read.
#[derive(Clone, Copy, Debug, PartialEq, Eq, Structural)]
pub enum CaptureError {
    /// The container is not one this frontend reads; another frontend may.
    Unsupported,
    /// The magic number or the global header is invalid.
    FormatError,
    /// The underlying transport failed (read, write or spawn).
    Io,
    /// A record header line from the child process is malformed.
    ProtocolError,
}

} // verus!
