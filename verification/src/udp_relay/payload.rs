//! The bytes of one datagram on their way through the relay, held in a
//! `bytes::Bytes`.

use bytes::Bytes;
use vstd::prelude::*;

verus! {

/// `bytes::Bytes`, an immutable buffer of bytes.
#[verifier::external_type_specification]
#[verifier::external_body]
pub struct ExBytes(Bytes);

/// The bytes that a buffer holds.
pub uninterp spec fn bytes_content(b: Bytes) -> Seq<u8>;

/// `Bytes::copy_from_slice`: a new buffer that holds a copy of `data`.
pub assume_specification[ Bytes::copy_from_slice ](data: &[u8]) -> (b: Bytes)
    ensures
        bytes_content(b) == data@,
;

} // verus!
