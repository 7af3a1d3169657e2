use vstd::prelude::*;

verus! {

/// The ways a cache operation can fail.
///
/// A missing backing file is not an error: the in-memory value is then
/// authoritative and operations simply leave it standing.
#[derive(Clone, Copy, Debug, PartialEq, Eq, Structural)]
pub enum CacheError {
    /// The backing store failed on a metadata query, a read or a write.
    Io,
    /// The backing file's contents could not be decoded into a value.
    Decode,
}

} // verus!
