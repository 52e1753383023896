//! Byte stuffing: a payload rewritten so that it holds no zero byte.
//!
//! The rewriting is Consistent Overhead Byte Stuffing, and the `cobs` crate
//! does it. Nothing here is proved: these are the statements about that crate
//! that the proofs of the stuffing codec rest on.

use vstd::prelude::*;

verus! {

/// `cobs::DecodeError`, carried as an opaque value.
#[verifier::external_type_specification]
#[verifier::external_body]
pub struct ExDecodeError(cobs::DecodeError);

/// What `cobs::encode_vec` makes of `payload`.
pub uninterp spec fn stuffed(payload: Seq<u8>) -> Seq<u8>;

/// What `cobs::decode_vec` makes of `data`: the payload that was stuffed
/// into it, or `None` where it refuses `data`.
pub uninterp spec fn unstuffed(data: Seq<u8>) -> Option<Seq<u8>>;

/// The most bytes that stuffing can add to a payload of `len` bytes: one for
/// every 254, rounded up.
pub open spec fn max_overhead(len: nat) -> nat {
    (len + 253) / 254
}

/// `cobs::encode_vec`: the stuffed form of `payload`. It holds no zero byte
/// and is longer than the payload by [`max_overhead`] at most. An empty
/// payload, and no other, is stuffed to no bytes at all; from the stuffed
/// form of any other, `cobs::decode_vec` gets the payload back.
#[verifier::external_body]
pub(crate) fn stuff(payload: &[u8]) -> (data: Vec<u8>)
    ensures
        data@ == stuffed(payload@),
        forall|i: int| 0 <= i < data@.len() ==> data@[i] != 0,
        data@.len() <= payload@.len() + max_overhead(payload@.len()),
        (payload@.len() == 0) == (data@.len() == 0),
        payload@.len() > 0 ==> unstuffed(data@) == Some(payload@),
{
    cobs::encode_vec(payload)
}

/// `cobs::decode_vec`: the payload that `data` is the stuffed form of, or
/// its error where `data` is not the stuffed form of anything.
#[verifier::external_body]
pub(crate) fn unstuff(data: &[u8]) -> (payload: Result<Vec<u8>, cobs::DecodeError>)
    ensures
        match payload {
            Ok(bytes) => unstuffed(data@) == Some(bytes@),
            Err(_) => unstuffed(data@) is None,
        },
{
    cobs::decode_vec(data)
}

} // verus!
