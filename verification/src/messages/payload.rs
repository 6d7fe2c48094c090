//! From message type to payload decoder, and from payload window to typed
//! payload.

use vstd::prelude::*;
use crate::error::DecodeError;
use crate::messages::clutter::{clutter_map_at, ClutterFilterMapMetadata, ClutterLimits};
use crate::messages::header::MessageHeader;
use crate::messages::message_type::MessageType;
use crate::messages::radar::{radar_header_fault, DigitalRadarDataGenericFormatHeader};

verus! {

/// The decoders that a payload can be handed to.
#[derive(Debug, Clone, Copy, PartialEq, Eq, Structural)]
pub enum PayloadDecoder {
    /// The fixed 68-byte header of generic-format radar data.
    GenericRadarHeader,
    /// The nested structure of the clutter filter map.
    ClutterFilterMap,
    /// No decoder: the payload is handed on as bytes.
    Unparsed,
}

/// The payload of a message: decoded where its type has a decoder, else the
/// bytes as they were found.
#[derive(Debug, Clone, PartialEq, Eq)]
pub enum Payload {
    RadarData(DigitalRadarDataGenericFormatHeader),
    ClutterFilterMap(ClutterFilterMapMetadata),
    Unparsed(Vec<u8>),
}

/// One decoded message: its header and its payload.
#[derive(Debug, Clone, PartialEq, Eq)]
pub struct Message {
    pub header: MessageHeader,
    pub payload: Payload,
}

/// The decoder for the payload of a message of type `message_type`.
pub open spec fn decoder_of(message_type: MessageType) -> PayloadDecoder {
    match message_type {
        MessageType::DigitalRadarDataGenericFormat => PayloadDecoder::GenericRadarHeader,
        MessageType::ClutterFilterMap => PayloadDecoder::ClutterFilterMap,
        _ => PayloadDecoder::Unparsed,
    }
}

/// The decoder for the payload of the record with header `header`: that of
/// its message type where the record holds the whole message, and none
/// where the message runs over several records, whose payloads have to be
/// joined first.
pub open spec fn decoder_for(header: MessageHeader) -> PayloadDecoder {
    if header.n_segments <= 1 {
        decoder_of(header.message_type)
    } else {
        PayloadDecoder::Unparsed
    }
}

/// Whether `r` is what `decoder` makes of the payload window `w`: the typed
/// payload read from the start of the window, the bytes of the window
/// themselves where there is nothing to decode, or the fault of the decoder.
pub open spec fn is_payload_of(
    r: Result<Payload, DecodeError>,
    decoder: PayloadDecoder,
    w: Seq<u8>,
    limits: ClutterLimits,
) -> bool {
    match decoder {
        PayloadDecoder::GenericRadarHeader => match r {
            Ok(Payload::RadarData(header)) => radar_header_fault(w, 0) is None
                && header.decoded_from(w, 0),
            Ok(_) => false,
            Err(e) => radar_header_fault(w, 0) == Some(e),
        },
        PayloadDecoder::ClutterFilterMap => match r {
            Ok(Payload::ClutterFilterMap(map)) => clutter_map_at(w, 0, limits) matches Ok(
                (content, _),
            ) && content == map@ && map.well_formed(),
            Ok(_) => false,
            Err(e) => clutter_map_at(w, 0, limits) matches Err(fault) && fault == e,
        },
        PayloadDecoder::Unparsed => r matches Ok(Payload::Unparsed(bytes)) && bytes@ == w,
    }
}

impl MessageType {
    /// The decoder for the payload of a message of this type. Message types
    /// without a decoder are no fault: their payload is handed on as bytes.
    pub fn payload_decoder(self) -> (decoder: PayloadDecoder)
        ensures
            decoder == decoder_of(self),
    {
        match self {
            MessageType::DigitalRadarDataGenericFormat => PayloadDecoder::GenericRadarHeader,
            MessageType::ClutterFilterMap => PayloadDecoder::ClutterFilterMap,
            _ => PayloadDecoder::Unparsed,
        }
    }
}

/// Hands the payload window `window` to `decoder`, which reads from the
/// start of the window.
///
/// Fails as the decoder fails: `GenericRadarHeader` with `Truncated` or
/// `MalformedHeader`, `ClutterFilterMap` with `Truncated` or
/// `CountOutOfRange`. `Unparsed` does not fail and returns a copy of the
/// window.
pub fn decode_payload(decoder: PayloadDecoder, window: &[u8], limits: &ClutterLimits) -> (r: Result<
    Payload,
    DecodeError,
>)
    ensures
        is_payload_of(r, decoder, window@, *limits),
{
    match decoder {
        PayloadDecoder::GenericRadarHeader => {
            match DigitalRadarDataGenericFormatHeader::decode(window, 0) {
                Ok((header, _)) => Ok(Payload::RadarData(header)),
                Err(e) => Err(e),
            }
        },
        PayloadDecoder::ClutterFilterMap => {
            match ClutterFilterMapMetadata::decode(window, 0, limits) {
                Ok((map, _)) => Ok(Payload::ClutterFilterMap(map)),
                Err(e) => Err(e),
            }
        },
        PayloadDecoder::Unparsed => Ok(Payload::Unparsed(vstd::slice::slice_to_vec(window))),
    }
}

} // verus!
