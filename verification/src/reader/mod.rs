//! Walking an archive: from the bytes of a file to decompressed segments,
//! framed message records and decoded headers.

use vstd::prelude::*;
use crate::error::DecodeError;
use crate::messages::header::{message_header_at, MessageHeader};
use crate::messages::radar::{radar_header_fault, DigitalRadarDataGenericFormatHeader};
use crate::messages::volume::{volume_header_fault, VolumeHeader};

pub mod framer;
pub mod inflate;
pub mod segments;

pub use framer::{
    frame_messages, MessageFrame, MESSAGE_HEADER_STARTING_BYTE_OFFSET, MESSAGE_PAYLOAD_OFFSET,
    MESSAGE_PAYLOAD_SIZE, MESSAGE_RECORD_SIZE,
};
pub use inflate::{settle_segment, BoundedSegmentReader, Segment, CONTROL_WORD_SIZE};
pub use segments::{
    decompress_nexrad_file, decompress_nexrad_segments, segment_message, SegmentStream,
};

verus! {

/// Decodes the volume header from the first 24 bytes of `file`.
///
/// Fails with `Truncated` when the file has fewer than 24 bytes, and with
/// `MalformedHeader` when the volume name or the station identifier holds a
/// byte that is not ASCII.
pub fn read_volume_header(file: &[u8]) -> (r: Result<VolumeHeader, DecodeError>)
    ensures
        match r {
            Ok(header) => volume_header_fault(file@, 0) is None && header.decoded_from(file@, 0),
            Err(e) => volume_header_fault(file@, 0) == Some(e),
        },
{
    match VolumeHeader::decode(file, 0) {
        Ok((header, _)) => Ok(header),
        Err(e) => Err(e),
    }
}

/// Decodes the message header of the record that `message` starts with: the
/// 16 bytes that follow the 12 bytes of legacy framing.
///
/// Fails with `Truncated` when `message` has fewer than 28 bytes, with
/// `UnknownMessageType` when the type byte is not a defined code, and with
/// `MalformedHeader` when the segment number does not fit the segment count.
pub fn read_message_header(message: Vec<u8>) -> (r: Result<MessageHeader, DecodeError>)
    ensures
        r == (match message_header_at(message@, 12) {
            Ok((header, _)) => Ok(header),
            Err(e) => Err(e),
        }),
        r matches Ok(header) ==> header.well_formed(),
{
    match MessageHeader::decode(message.as_slice(), MESSAGE_HEADER_STARTING_BYTE_OFFSET) {
        Ok((header, _)) => Ok(header),
        Err(e) => Err(e),
    }
}

/// Decodes the generic-format radar data header of the record that `message`
/// starts with: the 68 bytes that follow the legacy framing and the message
/// header. The record is taken to hold a message of type 31.
///
/// Fails with `Truncated` when `message` has fewer than 96 bytes, and with
/// `MalformedHeader` when the four bytes of the radar identifier are not
/// valid UTF-8.
pub fn read_data_header(message: &Vec<u8>) -> (r: Result<
    DigitalRadarDataGenericFormatHeader,
    DecodeError,
>)
    ensures
        match r {
            Ok(header) => radar_header_fault(message@, 28) is None && header.decoded_from(
                message@,
                28,
            ),
            Err(e) => radar_header_fault(message@, 28) == Some(e),
        },
{
    match DigitalRadarDataGenericFormatHeader::decode(message.as_slice(), MESSAGE_PAYLOAD_OFFSET) {
        Ok((header, _)) => Ok(header),
        Err(e) => Err(e),
    }
}

} // verus!
