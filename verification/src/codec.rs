//! Framing codecs: a byte stream in, whole messages out, and back.
//!
//! Both codecs obey one discipline. `encode` appends exactly one frame to the
//! outgoing buffer. `decode` looks at the front of the incoming buffer: where
//! a whole frame stands there it takes that frame, and nothing more, out of
//! the buffer and hands back its payload; where none stands there yet it
//! leaves the buffer as it is and reports that there is nothing to hand back.

use vstd::prelude::*;

pub mod buffer;
pub mod postcard_cobs;
pub mod postcard_prefix;
pub mod stuffing;
pub mod varint;

verus! {

/// Why a codec could not do what it was asked.
#[derive(Debug, Clone, Copy, PartialEq, Eq, Structural)]
pub enum CodecError {
    /// A whole frame was found, and taken out of the buffer, but what it
    /// holds is no payload.
    MalformedFrame,
    /// No bytes could be produced for the value to send.
    SerializationFailure,
}

/// What one decoding step finds at the front of a buffer.
pub enum Decoded {
    /// No whole frame yet.
    Incomplete,
    /// A frame that carries `payload`; `rest` is what follows the frame.
    Item { payload: Seq<u8>, rest: Seq<u8> },
    /// A whole frame that carries no payload; `rest` is what follows it.
    Malformed { rest: Seq<u8> },
}

/// Whether a call of `decode` that found a buffer holding `before`, left it
/// holding `after` and returned `result` did what `step` says.
pub open spec fn decoded_as(
    step: Decoded,
    before: Seq<u8>,
    result: Result<Option<Vec<u8>>, CodecError>,
    after: Seq<u8>,
) -> bool {
    match step {
        Decoded::Incomplete => result matches Ok(None) && after == before,
        Decoded::Item { payload, rest } => {
            &&& result matches Ok(Some(item))
            &&& item@ == payload
            &&& after == rest
        },
        Decoded::Malformed { rest } => {
            &&& result matches Err(CodecError::MalformedFrame)
            &&& after == rest
        },
    }
}

} // verus!
