//! Framing by length prefix.
//!
//! A frame is the payload's length, written as a variable-width field (see
//! [`crate::codec::varint`]), followed by the payload itself. The payload may
//! hold any bytes at all; only the length says where the frame ends. A length
//! below 128 takes one byte, and the width grows by a byte for every seven
//! bits more. Frames written with a fixed four-byte length are not understood.

use crate::codec::buffer::{buffered, bytes_of};
use crate::codec::varint::{
    lemma_parse_of_bytes, lemma_scan_of_cut_bytes, lemma_scan_width, length_field, take_length,
    varint_bytes, varint_parse,
};
use crate::codec::{decoded_as, CodecError, Decoded};
use core::marker::PhantomData;
use vstd::prelude::*;
use vstd::slice::{slice_subrange, slice_to_vec};

verus! {

/// A codec that frames each item by writing the length of its serialised
/// form in front of it.
///
/// `T` is the type of the items that the stream carries. The codec itself
/// sees an item only as the bytes it was serialised to, and holds no state:
/// what has been received of a frame stays in the caller's buffer.
#[derive(Debug)]
pub struct PostcardPrefixCodec<T>(PhantomData<T>);

/// The frame that carries `payload`.
pub open spec fn prefix_frame(payload: Seq<u8>) -> Seq<u8> {
    varint_bytes(payload.len()) + payload
}

/// What stands at the front of `buf`: a frame once the length field is whole
/// and as many bytes follow it as it says, and nothing before that.
pub open spec fn prefix_decoded(buf: Seq<u8>) -> Decoded {
    match varint_parse(buf) {
        None => Decoded::Incomplete,
        Some((length, width)) => if buf.len() < width + length {
            Decoded::Incomplete
        } else {
            Decoded::Item {
                payload: buf.subrange(width as int, (width + length) as int),
                rest: buf.skip((width + length) as int),
            }
        },
    }
}

impl<T> Default for PostcardPrefixCodec<T> {
    fn default() -> (codec: Self) {
        Self(PhantomData)
    }
}

impl<T> Clone for PostcardPrefixCodec<T> {
    fn clone(&self) -> (codec: Self) {
        Self(PhantomData)
    }
}

impl<T> PostcardPrefixCodec<T> {
    /// Appends to `dst` the frame that carries `item`, the serialised form
    /// of one item.
    ///
    /// The buffer must be able to hold the frame: its length and the
    /// frame's, added up, have to fit a `usize`. The length field is never
    /// wider than [`crate::codec::varint::MAX_WIDTH`] bytes, as
    /// [`crate::codec::varint::lemma_width_of_usize`] shows.
    pub fn encode(&mut self, item: &[u8], dst: &mut bytes::BytesMut) -> (result: Result<
        (),
        CodecError,
    >)
        requires
            buffered(*old(dst)).len() + prefix_frame(item@).len() <= usize::MAX,
        ensures
            result is Ok,
            buffered(*final(dst)) == buffered(*old(dst)) + prefix_frame(item@),
    {
        let field = match length_field(item.len()) {
            Some(field) => field,
            None => {
                return Err(CodecError::SerializationFailure);
            },
        };
        dst.reserve(field.len() + item.len());
        dst.extend_from_slice(field.as_slice());
        dst.extend_from_slice(item);
        assert(buffered(*dst) =~= buffered(*old(dst)) + prefix_frame(item@));
        Ok(())
    }

    /// Takes the frame at the front of `src`, if a whole one is there, and
    /// returns its payload; otherwise leaves `src` alone and returns `None`.
    ///
    /// A length field that is cut short, is too wide or names a length that
    /// does not fit a `usize` counts as no frame yet. No error is returned.
    pub fn decode(&mut self, src: &mut bytes::BytesMut) -> (result: Result<
        Option<Vec<u8>>,
        CodecError,
    >)
        ensures
            decoded_as(
                prefix_decoded(buffered(*old(src))),
                buffered(*old(src)),
                result,
                buffered(*final(src)),
            ),
    {
        if src.is_empty() {
            return Ok(None);
        }
        let (length, behind_field) = match take_length(bytes_of(src)) {
            Some((length, rest)) => (length, rest.len()),
            None => {
                return Ok(None);
            },
        };
        proof {
            lemma_scan_width(buffered(*src));
        }
        let width: usize = src.len() - behind_field;
        if behind_field < length {
            return Ok(None);
        }
        let frame = src.split_to(width + length);
        let payload = slice_to_vec(slice_subrange(bytes_of(&frame), width, width + length));
        assert(payload@ =~= buffered(*old(src)).subrange(width as int, width + length));
        Ok(Some(payload))
    }
}

/// The frames that carry `items`, one after the other.
pub open spec fn prefix_stream(items: Seq<Seq<u8>>) -> Seq<u8>
    decreases items.len(),
{
    if items.len() == 0 {
        Seq::empty()
    } else {
        prefix_frame(items[0]) + prefix_stream(items.skip(1))
    }
}

/// Round trip: a frame, followed by anything at all, is decoded to the
/// payload it was made for, and what followed it is what is left.
pub proof fn lemma_prefix_round_trip(payload: Seq<u8>, rest: Seq<u8>)
    requires
        payload.len() <= usize::MAX,
    ensures
        prefix_decoded(prefix_frame(payload) + rest) == (Decoded::Item { payload, rest }),
{
    let field = varint_bytes(payload.len());
    let buf = prefix_frame(payload) + rest;
    assert(buf =~= field + (payload + rest));
    lemma_parse_of_bytes(payload.len(), payload + rest);
    assert(buf.subrange(field.len() as int, (field.len() + payload.len()) as int) =~= payload);
    assert(buf.skip((field.len() + payload.len()) as int) =~= rest);
}

/// Partial frames: as long as a frame has not arrived whole, be it cut
/// inside the length field or inside the payload, decoding finds nothing.
pub proof fn lemma_prefix_partial_frame(payload: Seq<u8>, arrived: int)
    requires
        payload.len() <= usize::MAX,
        0 <= arrived < prefix_frame(payload).len(),
    ensures
        prefix_decoded(prefix_frame(payload).take(arrived)) == Decoded::Incomplete,
{
    let field = varint_bytes(payload.len());
    let cut = prefix_frame(payload).take(arrived);
    if arrived < field.len() {
        assert(cut =~= field.take(arrived));
        lemma_scan_of_cut_bytes(payload.len(), arrived);
    } else {
        assert(cut =~= field + payload.take(arrived - field.len()));
        lemma_parse_of_bytes(payload.len(), payload.take(arrived - field.len()));
    }
}

/// Concatenation: of the frames of `items` written one after the other,
/// the call of `decode` that follows `done` others finds the item at `done`
/// and leaves the frames of the items behind it; the call that follows
/// them all finds nothing.
pub proof fn lemma_prefix_concatenation(items: Seq<Seq<u8>>, done: int)
    requires
        forall|i: int| 0 <= i < items.len() ==> (#[trigger] items[i]).len() <= usize::MAX,
        0 <= done <= items.len(),
    ensures
        prefix_decoded(prefix_stream(items.skip(done))) == if done < items.len() {
            Decoded::Item { payload: items[done], rest: prefix_stream(items.skip(done + 1)) }
        } else {
            Decoded::Incomplete
        },
{
    let left = items.skip(done);
    if done < items.len() {
        assert(left[0] == items[done]);
        assert(left.skip(1) =~= items.skip(done + 1));
        lemma_prefix_round_trip(items[done], prefix_stream(items.skip(done + 1)));
    }
}

} // verus!
