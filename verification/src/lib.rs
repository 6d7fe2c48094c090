//! Decoder for WSR-88D Level II archive files.
//!
//! An archive is a 24-byte volume header followed by a run of segments. Each
//! segment is a 4-byte big-endian control word and then that many bytes of
//! bzip2 data, which inflate to a whole number of 2432-byte message records.
//! A record is 12 bytes of legacy framing, a 16-byte message header and a
//! payload whose layout the header's message type selects.
//!
//! The crate works on bytes in memory: callers read the file and own the
//! buffers. `reader` walks the file and frames the records, `messages`
//! holds the record types and their decoders, `wire` the big-endian
//! primitives they share.

pub mod error;
pub mod wire;
pub mod messages;
pub mod reader;
