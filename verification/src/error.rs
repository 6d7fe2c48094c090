//! The ways in which decoding an archive can fail.
//!
//! Every failure aborts the decode of the file it occurs in; nothing is
//! repaired or defaulted. Each variant carries what is needed to find the
//! fault again. A byte offset is always relative to the start of the byte
//! window that was handed to the function that reports the failure.

use vstd::prelude::*;

verus! {

#[derive(Debug, Clone, Copy, PartialEq, Eq, Structural)]
pub enum DecodeError {
    /// `needed` bytes were to be read at `offset`, and the window ends before
    /// the last of them.
    Truncated { offset: usize, needed: usize },
    /// The control word at `offset` is negative.
    InvalidControlWord { offset: usize, word: i32 },
    /// The decompressor rejected the compressed bytes of segment `segment`.
    CorruptSegment { segment: usize },
    /// In strict mode: the decompressor consumed `consumed` bytes of segment
    /// `segment`, whose control word declared `declared`.
    SegmentSizeMismatch { segment: usize, declared: u64, consumed: u64 },
    /// The message-type byte of a message header is not a defined code.
    UnknownMessageType(u8),
    /// The count field at `offset` holds `count`, more than the configured
    /// `ceiling` for counts of its kind.
    CountOutOfRange { offset: usize, count: u16, ceiling: u16 },
    /// The header field at `offset` holds a value that no well-formed header
    /// has: bytes that are not text in a text field, or a segment number
    /// outside the range that the segment count allows.
    MalformedHeader { offset: usize },
    /// The bytes from `offset` to the end of a segment do not fill a message
    /// record and are not all zero.
    UnexpectedTrailingBytes { offset: usize },
}

} // verus!
