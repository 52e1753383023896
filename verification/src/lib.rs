//! Message framing for byte streams.
//!
//! A stream of bytes carries no message boundaries of its own. The codecs in
//! [`codec`] cut such a stream into frames, one per message, and put the
//! frames back together: one marks the end of each frame with a zero byte
//! after stuffing the zero bytes out of the payload, the other writes the
//! payload's length in front of it. Both leave the serialisation of a message
//! to their caller and work on its bytes.
//!
//! [`error`] holds the error type of the transport layer that sits on top.

pub mod codec;
pub mod error;
