//! The 16-byte header that opens every message record.

use vstd::prelude::*;
use crate::error::DecodeError;
use crate::messages::message_type::{collate_message_type, message_type_of, MessageType};
use crate::wire::{
    has_bytes, holds, i16_at, i16_in, i32_at, i32_in, i8_at, i8_in, truncated, u8_at,
};

verus! {

/// The number of bytes that a message header takes on the wire.
pub const MESSAGE_HEADER_SIZE: usize = 16;

/// The header of one message record.
///
/// A message may span several records. `n_segments` says how many, and
/// `message_segment_no` which of them this record is, counting from 1. The
/// payload of such a message is the payloads of its records, joined in the
/// order of their segment numbers; joining them is left to the caller.
#[derive(Debug, Clone, Copy, PartialEq, Eq, Structural)]
pub struct MessageHeader {
    /// The size of the message in halfwords.
    pub messagesize: i16,
    pub rda_redundant_channel: i8,
    pub message_type: MessageType,
    pub id_seq_no: i16,
    /// Days since 1 January 1970, counting that day as 1.
    pub julian_date: i16,
    pub ms_from_midnight: i32,
    pub n_segments: i16,
    pub message_segment_no: i16,
}

impl MessageHeader {
    /// The invariant of a header: where the message has more than one
    /// segment, the segment number lies between 1 and the segment count.
    pub open spec fn well_formed(&self) -> bool {
        self.n_segments > 1 ==> 1 <= self.message_segment_no <= self.n_segments
    }

    /// Whether the header's segment number fits its segment count.
    pub fn is_well_formed(&self) -> (b: bool)
        ensures
            b == self.well_formed(),
    {
        self.n_segments <= 1 || (1 <= self.message_segment_no && self.message_segment_no
            <= self.n_segments)
    }

    /// Whether this record holds the whole message, so that its payload can
    /// be decoded without joining it to others.
    pub fn is_single_record(&self) -> (b: bool)
        ensures
            b == (self.n_segments <= 1),
    {
        self.n_segments <= 1
    }

    /// Decodes the header that starts at `cursor` in `window` and returns it
    /// with the cursor moved past its 16 bytes.
    ///
    /// Fails with `Truncated` when fewer than 16 bytes follow the cursor, with
    /// `UnknownMessageType` when the type byte is not a defined code, and with
    /// `MalformedHeader` at the segment-number field when the segment number
    /// does not fit the segment count. A header that is returned is
    /// well-formed.
    pub fn decode(window: &[u8], cursor: usize) -> (r: Result<(Self, usize), DecodeError>)
        ensures
            r == message_header_at(window@, cursor),
            r matches Ok((header, end)) ==> header.well_formed() && end == cursor + 16,
            r matches Ok((header, _)) ==> (header.n_segments > 1 ==> 1 <= header.message_segment_no
                <= header.n_segments),
    {
        if !has_bytes(window, cursor, MESSAGE_HEADER_SIZE) {
            return Err(DecodeError::Truncated { offset: cursor, needed: MESSAGE_HEADER_SIZE });
        }
        let message_type = match collate_message_type(window[cursor + 3]) {
            Ok(t) => t,
            Err(e) => {
                return Err(e);
            },
        };
        let header = MessageHeader {
            messagesize: i16_in(window, cursor),
            rda_redundant_channel: i8_in(window, cursor + 2),
            message_type,
            id_seq_no: i16_in(window, cursor + 4),
            julian_date: i16_in(window, cursor + 6),
            ms_from_midnight: i32_in(window, cursor + 8),
            n_segments: i16_in(window, cursor + 12),
            message_segment_no: i16_in(window, cursor + 14),
        };
        if !header.is_well_formed() {
            return Err(DecodeError::MalformedHeader { offset: cursor + 14 });
        }
        Ok((header, cursor + MESSAGE_HEADER_SIZE))
    }
}

/// The fields of the 16 bytes of `w` from `at` on, for a type byte that
/// stands for `message_type`.
pub open spec fn header_fields(w: Seq<u8>, at: int, message_type: MessageType) -> MessageHeader {
    MessageHeader {
        messagesize: i16_at(w, at),
        rda_redundant_channel: i8_at(w, at + 2),
        message_type,
        id_seq_no: i16_at(w, at + 4),
        julian_date: i16_at(w, at + 6),
        ms_from_midnight: i32_at(w, at + 8),
        n_segments: i16_at(w, at + 12),
        message_segment_no: i16_at(w, at + 14),
    }
}

/// What decoding a message header from `w` at `at` gives: the header and the
/// position after it, or the first fault in the order window, type, segment
/// number.
pub open spec fn message_header_at(w: Seq<u8>, at: usize) -> Result<
    (MessageHeader, usize),
    DecodeError,
> {
    if !holds(w, at as int, 16) {
        Err(truncated(at, MESSAGE_HEADER_SIZE))
    } else {
        match message_type_of(u8_at(w, at + 3)) {
            Err(e) => Err(e),
            Ok(message_type) => {
                let header = header_fields(w, at as int, message_type);
                if header.well_formed() {
                    Ok((header, (at + 16) as usize))
                } else {
                    Err(DecodeError::MalformedHeader { offset: (at + 14) as usize })
                }
            },
        }
    }
}

/// Every header that can be decoded keeps its segment number within its
/// segment count: with more than one segment, the number is at least 1 and
/// at most the count.
pub proof fn decoded_header_is_well_formed(w: Seq<u8>, at: usize)
    ensures
        message_header_at(w, at) matches Ok((header, _)) ==> (header.n_segments > 1 ==> 1
            <= header.message_segment_no <= header.n_segments),
{
}

} // verus!
