//! Framing by a zero byte at the end of each frame.
//!
//! A frame is the payload with its zero bytes stuffed out (see
//! [`crate::codec::stuffing`]), followed by one zero byte. No zero byte
//! stands inside the stuffed payload, so the first zero byte of a stream is
//! the end of its first frame, whatever the payload holds. A payload of no
//! bytes is stuffed to no bytes: its frame is the zero byte alone.

use crate::codec::buffer::{buffered, bytes_of};
use crate::codec::stuffing::{max_overhead, stuff, stuffed, unstuff, unstuffed};
use crate::codec::{decoded_as, CodecError, Decoded};
use core::marker::PhantomData;
use vstd::prelude::*;

verus! {

/// A codec that frames each item by stuffing the zero bytes out of its
/// serialised form and ending it with a zero byte.
///
/// `T` is the type of the items that the stream carries. The codec itself
/// sees an item only as the bytes it was serialised to, and holds no state:
/// what has been received of a frame stays in the caller's buffer.
#[derive(Debug)]
pub struct PostcardCobsCodec<T>(PhantomData<T>);

/// Whether the first zero byte of `buf` stands at `i`.
pub open spec fn is_terminator(buf: Seq<u8>, i: int) -> bool {
    &&& 0 <= i < buf.len()
    &&& buf[i] == 0
    &&& forall|j: int| 0 <= j < i ==> buf[j] != 0
}

/// The frame that carries `payload`.
pub open spec fn cobs_frame(payload: Seq<u8>) -> Seq<u8> {
    stuffed(payload).push(0u8)
}

/// The payload that a frame carries, given the frame without its zero byte;
/// `None` where those bytes are not the stuffed form of any payload.
pub open spec fn frame_payload(body: Seq<u8>) -> Option<Seq<u8>> {
    if body.len() == 0 {
        Some(Seq::empty())
    } else {
        unstuffed(body)
    }
}

/// What the codec relies on the stuffing for, said of one payload: its
/// stuffed form holds no zero byte, and the payload is what a frame made of
/// that form carries. Every call of [`PostcardCobsCodec::encode`] shows it of
/// the item it was given.
pub open spec fn well_stuffed(payload: Seq<u8>) -> bool {
    &&& forall|i: int| 0 <= i < stuffed(payload).len() ==> stuffed(payload)[i] != 0
    &&& frame_payload(stuffed(payload)) == Some(payload)
}

/// What stands at the front of `buf`: a frame once a zero byte is there, and
/// nothing before that.
pub open spec fn cobs_decoded(buf: Seq<u8>) -> Decoded {
    if exists|i: int| is_terminator(buf, i) {
        let end = choose|i: int| is_terminator(buf, i);
        match frame_payload(buf.take(end)) {
            Some(payload) => Decoded::Item { payload, rest: buf.skip(end + 1) },
            None => Decoded::Malformed { rest: buf.skip(end + 1) },
        }
    } else {
        Decoded::Incomplete
    }
}

/// The place of the first zero byte of `bytes`, if it holds one.
pub fn find_terminator(bytes: &[u8]) -> (found: Option<usize>)
    ensures
        match found {
            Some(i) => is_terminator(bytes@, i as int),
            None => forall|j: int| 0 <= j < bytes@.len() ==> bytes@[j] != 0,
        },
{
    let mut i: usize = 0;
    while i < bytes.len()
        invariant
            i <= bytes@.len(),
            forall|j: int| 0 <= j < i ==> bytes@[j] != 0,
        decreases bytes@.len() - i,
    {
        if bytes[i] == 0 {
            return Some(i);
        }
        i += 1;
    }
    None
}

impl<T> Default for PostcardCobsCodec<T> {
    fn default() -> (codec: Self) {
        Self(PhantomData)
    }
}

impl<T> Clone for PostcardCobsCodec<T> {
    fn clone(&self) -> (codec: Self) {
        Self(PhantomData)
    }
}

impl<T> PostcardCobsCodec<T> {
    /// Appends to `dst` the frame that carries `item`, the serialised form
    /// of one item.
    ///
    /// The buffer must be able to hold the longest frame that an item of
    /// this length can have: its length and that, added up, have to fit a
    /// `usize`.
    pub fn encode(&mut self, item: &[u8], dst: &mut bytes::BytesMut) -> (result: Result<
        (),
        CodecError,
    >)
        requires
            buffered(*old(dst)).len() + item@.len() + max_overhead(item@.len()) + 1
                <= usize::MAX,
        ensures
            result is Ok,
            buffered(*final(dst)) == buffered(*old(dst)) + cobs_frame(item@),
            well_stuffed(item@),
    {
        let mut frame = stuff(item);
        assert(item@.len() == 0 ==> item@ =~= Seq::<u8>::empty());
        frame.push(0u8);
        dst.reserve(frame.len());
        dst.extend_from_slice(frame.as_slice());
        Ok(())
    }

    /// Takes the frame at the front of `src`, if a whole one is there, and
    /// returns its payload; otherwise leaves `src` alone and returns `None`.
    ///
    /// The frame ends with the first zero byte of `src`. Where the bytes
    /// before it are not the stuffed form of a payload, the frame is taken
    /// out of `src` all the same and `MalformedFrame` is returned.
    pub fn decode(&mut self, src: &mut bytes::BytesMut) -> (result: Result<
        Option<Vec<u8>>,
        CodecError,
    >)
        ensures
            decoded_as(
                cobs_decoded(buffered(*old(src))),
                buffered(*old(src)),
                result,
                buffered(*final(src)),
            ),
    {
        let bytes = bytes_of(src);
        let end = match find_terminator(bytes) {
            Some(end) => end,
            None => {
                return Ok(None);
            },
        };
        assert(end < bytes@.len() == vstd::slice::spec_slice_len(bytes));
        let mut frame = src.split_to(end + 1);
        frame.truncate(end);
        assert(buffered(frame) =~= buffered(*old(src)).take(end as int));
        if end == 0 {
            return Ok(Some(Vec::new()));
        }
        match unstuff(bytes_of(&frame)) {
            Ok(payload) => Ok(Some(payload)),
            Err(_) => Err(CodecError::MalformedFrame),
        }
    }
}

/// The frames that carry `items`, one after the other.
pub open spec fn cobs_stream(items: Seq<Seq<u8>>) -> Seq<u8>
    decreases items.len(),
{
    if items.len() == 0 {
        Seq::empty()
    } else {
        cobs_frame(items[0]) + cobs_stream(items.skip(1))
    }
}

/// Zero bytes are stuffed out: a frame holds one zero byte, and it is the
/// frame's last byte.
pub proof fn lemma_cobs_single_zero(payload: Seq<u8>)
    requires
        well_stuffed(payload),
    ensures
        forall|i: int|
            0 <= i < cobs_frame(payload).len() ==> (cobs_frame(payload)[i] == 0 <==> i
                == cobs_frame(payload).len() - 1),
{
}

/// Round trip: a frame, followed by anything at all, is decoded to the
/// payload it was made for, and what followed it is what is left.
pub proof fn lemma_cobs_round_trip(payload: Seq<u8>, rest: Seq<u8>)
    requires
        well_stuffed(payload),
    ensures
        cobs_decoded(cobs_frame(payload) + rest) == (Decoded::Item { payload, rest }),
{
    let buf = cobs_frame(payload) + rest;
    let end = stuffed(payload).len() as int;
    assert(is_terminator(buf, end));
    let found = choose|i: int| is_terminator(buf, i);
    assert(found == end);
    assert(buf.take(end) =~= stuffed(payload));
    assert(buf.skip(end + 1) =~= rest);
}

/// Partial frames: as long as the zero byte that ends a frame has not
/// arrived, decoding finds nothing.
pub proof fn lemma_cobs_partial_frame(payload: Seq<u8>, arrived: int)
    requires
        well_stuffed(payload),
        0 <= arrived < cobs_frame(payload).len(),
    ensures
        cobs_decoded(cobs_frame(payload).take(arrived)) == Decoded::Incomplete,
{
}

/// Concatenation: of the frames of `items` written one after the other,
/// the call of `decode` that follows `done` others finds the item at `done`
/// and leaves the frames of the items behind it; the call that follows
/// them all finds nothing.
pub proof fn lemma_cobs_concatenation(items: Seq<Seq<u8>>, done: int)
    requires
        forall|i: int| 0 <= i < items.len() ==> well_stuffed(#[trigger] items[i]),
        0 <= done <= items.len(),
    ensures
        cobs_decoded(cobs_stream(items.skip(done))) == if done < items.len() {
            Decoded::Item { payload: items[done], rest: cobs_stream(items.skip(done + 1)) }
        } else {
            Decoded::Incomplete
        },
{
    let left = items.skip(done);
    if done < items.len() {
        assert(left[0] == items[done]);
        assert(left.skip(1) =~= items.skip(done + 1));
        lemma_cobs_round_trip(items[done], cobs_stream(items.skip(done + 1)));
    }
}

} // verus!
