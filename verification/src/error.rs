//! Why a relay did not commit.

use vstd::prelude::*;

verus! {

/// The failures of a relay. Each one aborts the whole call and leaves the
/// destination as it was.
#[derive(Clone, Copy, Debug, PartialEq, Eq, Structural)]
pub enum RelayError {
    /// Fewer than two accounts were supplied.
    MissingAccount,
    /// The source bytes are not exactly one record of the expected layout.
    MalformedSource,
    /// The destination does not start with a record of the expected layout.
    MalformedDestination,
    /// Writing the record would change the length of the destination.
    BufferSizeMismatch,
}

} // verus!
