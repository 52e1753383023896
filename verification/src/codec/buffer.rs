//! The stream buffer, `bytes::BytesMut`, as the codecs see it.
//!
//! Nothing here is proved: these are the statements about the `bytes` crate
//! that the codecs' proofs rest on.

use vstd::prelude::*;

verus! {

/// `bytes::BytesMut`: a growable run of bytes that can give up its front.
/// Its inside is hidden; what it holds is spoken of through [`buffered`].
#[verifier::external_type_specification]
#[verifier::external_body]
pub struct ExBytesMut(bytes::BytesMut);

/// The bytes that a buffer holds, the front of the stream first: what
/// `&buffer[..]` shows.
pub uninterp spec fn buffered(buffer: bytes::BytesMut) -> Seq<u8>;

/// `BytesMut::len` returns the number of bytes that the buffer holds.
pub assume_specification[ bytes::BytesMut::len ](buffer: &bytes::BytesMut) -> (n: usize)
    ensures
        n == buffered(*buffer).len(),
;

/// `BytesMut::is_empty` tells whether the buffer holds no byte.
pub assume_specification[ bytes::BytesMut::is_empty ](buffer: &bytes::BytesMut) -> (b: bool)
    ensures
        b == (buffered(*buffer).len() == 0),
;

/// `BytesMut::split_to` cuts the buffer at `at`: the first `at` bytes are
/// returned, and the buffer keeps what came after them. It panics where `at`
/// lies beyond the buffer's end.
pub assume_specification[ bytes::BytesMut::split_to ](
    buffer: &mut bytes::BytesMut,
    at: usize,
) -> (front: bytes::BytesMut)
    requires
        at <= buffered(*old(buffer)).len(),
    ensures
        buffered(front) == buffered(*old(buffer)).take(at as int),
        buffered(*final(buffer)) == buffered(*old(buffer)).skip(at as int),
;

/// `BytesMut::truncate` keeps the first `len` bytes and drops the others; a
/// `len` beyond the buffer's end changes nothing.
pub assume_specification[ bytes::BytesMut::truncate ](buffer: &mut bytes::BytesMut, len: usize)
    ensures
        buffered(*final(buffer)) == if len <= buffered(*old(buffer)).len() {
            buffered(*old(buffer)).take(len as int)
        } else {
            buffered(*old(buffer))
        },
;

/// `BytesMut::reserve` makes room for `additional` more bytes and leaves
/// the bytes held as they are. It panics where the new capacity would
/// overflow `usize`.
pub assume_specification[ bytes::BytesMut::reserve ](
    buffer: &mut bytes::BytesMut,
    additional: usize,
)
    requires
        buffered(*old(buffer)).len() + additional <= usize::MAX,
    ensures
        buffered(*final(buffer)) == buffered(*old(buffer)),
;

/// `BytesMut::extend_from_slice` appends the bytes of `extend` to the
/// buffer, after reserving room for them as `reserve` does.
pub assume_specification[ bytes::BytesMut::extend_from_slice ](
    buffer: &mut bytes::BytesMut,
    extend: &[u8],
)
    requires
        buffered(*old(buffer)).len() + extend@.len() <= usize::MAX,
    ensures
        buffered(*final(buffer)) == buffered(*old(buffer)) + extend@,
;

/// The `AsRef<[u8]>` impl of `BytesMut` lends the bytes that the buffer
/// holds as a slice.
#[verifier::external_body]
pub(crate) fn bytes_of(buffer: &bytes::BytesMut) -> (bytes: &[u8])
    ensures
        bytes@ == buffered(*buffer),
{
    buffer.as_ref()
}

} // verus!
