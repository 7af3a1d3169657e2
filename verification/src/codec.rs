use vstd::prelude::*;

use crate::error::CacheError;

verus! {

/// The codec capability a value type must supply to be stored by a cache
/// handle: encoding to a self-describing byte stream and decoding back.
///
/// The two spec functions fix what the executable methods do.  `save` must
/// produce exactly `encode_spec`, and `load` must return a value that the
/// input bytes decode to, or reject the input when nothing does.  A lawful
/// codec also reconstructs every value it wrote; that obligation is stated
/// pointwise where the laws need it, as `decodes_to(v.encode_spec(), v)`.
pub trait Cache: Sized {
    /// The byte stream that `save` writes for this value.
    spec fn encode_spec(&self) -> Seq<u8>;

    /// Whether `data` is a well-formed encoding of the value `v`.
    spec fn decodes_to(data: Seq<u8>, v: Self) -> bool;

    /// Encode the value as a self-describing byte stream.
    fn save(&self) -> (out: Vec<u8>)
        ensures
            out@ == self.encode_spec(),
    ;

    /// Reconstruct a value from a byte stream.  Malformed input is reported,
    /// never papered over with a default or a partial value.
    fn load(data: &[u8]) -> (r: Result<Self, CacheError>)
        ensures
            r matches Ok(v) ==> Self::decodes_to(data@, v),
            r is Err ==> r == Err::<Self, CacheError>(CacheError::Decode) && (forall|v: Self|
                !Self::decodes_to(data@, v)),
    ;
}

} // verus!
