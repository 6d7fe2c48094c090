//! Cutting a decompressed segment into message records, and a record into
//! its header window and its payload window.

use vstd::prelude::*;
use crate::error::DecodeError;
use crate::messages::clutter::ClutterLimits;
use crate::messages::header::{message_header_at, MessageHeader};
use crate::messages::payload::{decode_payload, decoder_for, is_payload_of, Message, Payload};

verus! {

/// The number of bytes of a message record.
pub const MESSAGE_RECORD_SIZE: usize = 2432;

/// The offset of the message header in a record, after the legacy framing.
pub const MESSAGE_HEADER_STARTING_BYTE_OFFSET: usize = 12;

/// The offset of the payload in a record, after the message header.
pub const MESSAGE_PAYLOAD_OFFSET: usize = 28;

/// The number of payload bytes of a record: 2432 - 12 - 16.
pub const MESSAGE_PAYLOAD_SIZE: usize = 2404;

/// One message record of a segment, cut at its two seams. The 12 bytes of
/// legacy framing that open the record are passed over.
#[derive(Debug, Clone, Copy)]
pub struct MessageFrame<'a> {
    /// The offset of the record in its segment.
    pub offset: usize,
    /// The 16 bytes of the message header.
    pub header: &'a [u8],
    /// The 2404 bytes that follow the message header.
    pub payload: &'a [u8],
}

impl<'a> MessageFrame<'a> {
    /// Whether `self` is record `index` of `segment`.
    pub open spec fn is_record(&self, segment: Seq<u8>, index: int) -> bool {
        &&& self.offset == index * 2432
        &&& self.header@ == segment.subrange(index * 2432 + 12, index * 2432 + 28)
        &&& self.payload@ == segment.subrange(index * 2432 + 28, index * 2432 + 2432)
    }

    /// Decodes the record: the message header from the header window, then
    /// the payload window by the decoder that the header selects.
    ///
    /// The payload is decoded where the message type has a decoder and the
    /// record holds the whole message. For every other record the payload
    /// comes back as bytes: a type without a decoder is no fault, and a
    /// message of several records is for the caller to join.
    ///
    /// Fails with the fault of the header decoder, or else with that of the
    /// payload decoder. The offset in a fault counts from the start of the
    /// window that was being read, header or payload.
    pub fn decode(&self, limits: &ClutterLimits) -> (r: Result<Message, DecodeError>)
        ensures
            match message_header_at(self.header@, 0) {
                Err(e) => r == Err::<Message, DecodeError>(e),
                Ok((header, _)) => {
                    &&& r matches Ok(message) ==> message.header == header
                    &&& is_payload_of(
                        payload_of(r),
                        decoder_for(header),
                        self.payload@,
                        *limits,
                    )
                },
            },
    {
        let header: MessageHeader = match MessageHeader::decode(self.header, 0) {
            Ok((header, _)) => header,
            Err(e) => {
                return Err(e);
            },
        };
        let decoder = if header.is_single_record() {
            header.message_type.payload_decoder()
        } else {
            crate::messages::payload::PayloadDecoder::Unparsed
        };
        match decode_payload(decoder, self.payload, limits) {
            Ok(payload) => Ok(Message { header, payload }),
            Err(e) => Err(e),
        }
    }
}

/// The payload of a decoded message, or the fault in its place.
pub open spec fn payload_of(r: Result<Message, DecodeError>) -> Result<Payload, DecodeError> {
    match r {
        Ok(message) => Ok(message.payload),
        Err(e) => Err(e),
    }
}

/// The number of whole records in a segment of `len` bytes.
pub open spec fn record_count(len: nat) -> int {
    len as int / 2432
}

/// Whether every byte of `bytes` is zero.
pub open spec fn is_padding(bytes: Seq<u8>) -> bool {
    forall|i: int| 0 <= i < bytes.len() ==> bytes[i] == 0
}

/// Why `segment` cannot be framed, if so: after its last whole record
/// follow bytes that are not all zero.
pub open spec fn framing_fault(segment: Seq<u8>) -> Option<DecodeError> {
    let whole = record_count(segment.len()) * 2432;
    if is_padding(segment.subrange(whole, segment.len() as int)) {
        None
    } else {
        Some(DecodeError::UnexpectedTrailingBytes { offset: whole as usize })
    }
}

/// Cuts `segment` into its message records, in order.
///
/// A segment holds a whole number of records of 2432 bytes. Bytes that
/// follow the last whole record are dropped where all of them are zero;
/// where one of them is not, the segment is refused with
/// `UnexpectedTrailingBytes` at the offset where they start.
pub fn frame_messages<'a>(segment: &'a [u8]) -> (r: Result<Vec<MessageFrame<'a>>, DecodeError>)
    ensures
        match r {
            Ok(frames) => {
                &&& framing_fault(segment@) is None
                &&& frames.len() == record_count(segment@.len())
                &&& forall|i: int|
                    0 <= i < frames.len() ==> (#[trigger] frames[i]).is_record(segment@, i)
            },
            Err(e) => framing_fault(segment@) == Some(e),
        },
{
    let count: usize = segment.len() / MESSAGE_RECORD_SIZE;
    let whole: usize = count * MESSAGE_RECORD_SIZE;
    let ghost tail = segment@.subrange(whole as int, segment@.len() as int);
    let mut at: usize = whole;
    while at < segment.len()
        invariant
            whole <= at <= segment.len(),
            whole == record_count(segment@.len()) * 2432,
            tail == segment@.subrange(whole as int, segment@.len() as int),
            forall|i: int| whole <= i < at ==> segment@[i] == 0,
        decreases segment.len() - at,
    {
        if segment[at] != 0 {
            assert(tail[at - whole] == segment@[at as int]);
            return Err(DecodeError::UnexpectedTrailingBytes { offset: whole });
        }
        at = at + 1;
    }
    assert forall|i: int| 0 <= i < tail.len() implies tail[i] == 0 by {
        assert(tail[i] == segment@[whole + i]);
    }
    let mut frames: Vec<MessageFrame<'a>> = Vec::new();
    let mut index: usize = 0;
    while index < count
        invariant
            index <= count,
            count == record_count(segment@.len()),
            count * 2432 <= segment.len(),
            frames.len() == index,
            forall|i: int| 0 <= i < frames.len() ==> (#[trigger] frames[i]).is_record(segment@, i),
        decreases count - index,
    {
        let offset: usize = index * MESSAGE_RECORD_SIZE;
        let frame = MessageFrame {
            offset,
            header: vstd::slice::slice_subrange(
                segment,
                offset + MESSAGE_HEADER_STARTING_BYTE_OFFSET,
                offset + MESSAGE_PAYLOAD_OFFSET,
            ),
            payload: vstd::slice::slice_subrange(
                segment,
                offset + MESSAGE_PAYLOAD_OFFSET,
                offset + MESSAGE_RECORD_SIZE,
            ),
        };
        frames.push(frame);
        index = index + 1;
    }
    Ok(frames)
}

} // verus!
