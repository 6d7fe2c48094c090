//! The records of an archive and the decoders that read them from bytes.

pub mod clutter;
pub mod clutter_encoding;
pub mod header;
pub mod message_type;
pub mod payload;
pub mod radar;
pub mod volume;

pub use clutter::{
    AzimuthSegment, ClutterFilterMapMetadata, ClutterLimits, ElevationSegment, RangeZone,
};
pub use header::{MessageHeader, MESSAGE_HEADER_SIZE};
pub use message_type::{collate_message_type, MessageType};
pub use payload::{decode_payload, Message, Payload, PayloadDecoder};
pub use radar::{
    DigitalRadarDataGenericFormatHeader, Message31DataBlock,
    DIGITAL_RADAR_DATA_GENERIC_FORMAT_HEADER_SIZE,
};
pub use volume::{VolumeHeader, VOLUME_HEADER_SIZE};
