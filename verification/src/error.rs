//! The ways in which a reconstruction can fail.

use vstd::prelude::*;

verus! {

/// Why an operation on a bundle or on one of its assets gave no result.
#[derive(Clone, Copy, Debug, PartialEq, Eq, Structural)]
pub enum ExtractError {
    /// The bytes do not have the expected structure: a wrong magic number, a
    /// table or a record that ends before it should, an offset that leaves
    /// the buffer, a number that does not fit.
    Format,
    /// The asset names a payload that is not there: a sidecar that was never
    /// located, a range beyond the end of one, or a payload of size zero.
    MissingPayload,
    /// An identifier was looked up in the index and not found.
    UnresolvedReference,
    /// The result could not be written out as text.
    Encoding,
}

} // verus!
