//! The message types of the RDA/RPG interface and the byte codes that stand
//! for them in a message header.

use vstd::prelude::*;
use crate::error::DecodeError;

verus! {

/// What a message carries. Every defined code has a variant of its own: the
/// codes that the interface reserves or leaves spare are valid tags too, and
/// stay apart from one another.
#[derive(Debug, Clone, Copy, PartialEq, Eq, Structural)]
pub enum MessageType {
    DigitalRadarData,
    RDAStatusData,
    PerformanceMaintenanceData,
    RDAConsoleMessage,
    RDAVolumeCoveragePattern,
    RDAControlCommand,
    RPGVolumeCoveragePattern,
    ClutterCensorZones,
    RequestForData,
    RPGConsoleMessage,
    LoopBackTestRDA,
    LoopBackTestRPG,
    ClutterFilterBypassMap,
    Spare,
    ClutterFilterMap,
    ReservedFAA16,
    ReservedFAA17,
    RDAAdaptationData,
    Reserved20,
    Reserved21,
    Reserved22,
    Reserved23,
    ReservedFAA24,
    ReservedFAA25,
    ReservedFAA26,
    DigitalRadarDataGenericFormat,
}

/// Whether `code` stands for a message type: 1 to 18, 20 to 26, and 31.
pub open spec fn is_message_code(code: u8) -> bool {
    1 <= code <= 18 || 20 <= code <= 26 || code == 31
}

/// The message type that `code` stands for, or `UnknownMessageType` with the
/// code where it stands for none.
pub open spec fn message_type_of(code: u8) -> Result<MessageType, DecodeError> {
    if code == 1 {
        Ok(MessageType::DigitalRadarData)
    } else if code == 2 {
        Ok(MessageType::RDAStatusData)
    } else if code == 3 {
        Ok(MessageType::PerformanceMaintenanceData)
    } else if code == 4 {
        Ok(MessageType::RDAConsoleMessage)
    } else if code == 5 {
        Ok(MessageType::RDAVolumeCoveragePattern)
    } else if code == 6 {
        Ok(MessageType::RDAControlCommand)
    } else if code == 7 {
        Ok(MessageType::RPGVolumeCoveragePattern)
    } else if code == 8 {
        Ok(MessageType::ClutterCensorZones)
    } else if code == 9 {
        Ok(MessageType::RequestForData)
    } else if code == 10 {
        Ok(MessageType::RPGConsoleMessage)
    } else if code == 11 {
        Ok(MessageType::LoopBackTestRDA)
    } else if code == 12 {
        Ok(MessageType::LoopBackTestRPG)
    } else if code == 13 {
        Ok(MessageType::ClutterFilterBypassMap)
    } else if code == 14 {
        Ok(MessageType::Spare)
    } else if code == 15 {
        Ok(MessageType::ClutterFilterMap)
    } else if code == 16 {
        Ok(MessageType::ReservedFAA16)
    } else if code == 17 {
        Ok(MessageType::ReservedFAA17)
    } else if code == 18 {
        Ok(MessageType::RDAAdaptationData)
    } else if code == 20 {
        Ok(MessageType::Reserved20)
    } else if code == 21 {
        Ok(MessageType::Reserved21)
    } else if code == 22 {
        Ok(MessageType::Reserved22)
    } else if code == 23 {
        Ok(MessageType::Reserved23)
    } else if code == 24 {
        Ok(MessageType::ReservedFAA24)
    } else if code == 25 {
        Ok(MessageType::ReservedFAA25)
    } else if code == 26 {
        Ok(MessageType::ReservedFAA26)
    } else if code == 31 {
        Ok(MessageType::DigitalRadarDataGenericFormat)
    } else {
        Err(DecodeError::UnknownMessageType(code))
    }
}

impl MessageType {
    /// The byte that stands for this message type in a message header.
    pub open spec fn code_of(self) -> u8 {
        match self {
            MessageType::DigitalRadarData => 1,
            MessageType::RDAStatusData => 2,
            MessageType::PerformanceMaintenanceData => 3,
            MessageType::RDAConsoleMessage => 4,
            MessageType::RDAVolumeCoveragePattern => 5,
            MessageType::RDAControlCommand => 6,
            MessageType::RPGVolumeCoveragePattern => 7,
            MessageType::ClutterCensorZones => 8,
            MessageType::RequestForData => 9,
            MessageType::RPGConsoleMessage => 10,
            MessageType::LoopBackTestRDA => 11,
            MessageType::LoopBackTestRPG => 12,
            MessageType::ClutterFilterBypassMap => 13,
            MessageType::Spare => 14,
            MessageType::ClutterFilterMap => 15,
            MessageType::ReservedFAA16 => 16,
            MessageType::ReservedFAA17 => 17,
            MessageType::RDAAdaptationData => 18,
            MessageType::Reserved20 => 20,
            MessageType::Reserved21 => 21,
            MessageType::Reserved22 => 22,
            MessageType::Reserved23 => 23,
            MessageType::ReservedFAA24 => 24,
            MessageType::ReservedFAA25 => 25,
            MessageType::ReservedFAA26 => 26,
            MessageType::DigitalRadarDataGenericFormat => 31,
        }
    }

    /// The byte that stands for this message type in a message header.
    pub fn code(self) -> (code: u8)
        ensures
            code == self.code_of(),
            message_type_of(code) == Ok::<MessageType, DecodeError>(self),
    {
        match self {
            MessageType::DigitalRadarData => 1,
            MessageType::RDAStatusData => 2,
            MessageType::PerformanceMaintenanceData => 3,
            MessageType::RDAConsoleMessage => 4,
            MessageType::RDAVolumeCoveragePattern => 5,
            MessageType::RDAControlCommand => 6,
            MessageType::RPGVolumeCoveragePattern => 7,
            MessageType::ClutterCensorZones => 8,
            MessageType::RequestForData => 9,
            MessageType::RPGConsoleMessage => 10,
            MessageType::LoopBackTestRDA => 11,
            MessageType::LoopBackTestRPG => 12,
            MessageType::ClutterFilterBypassMap => 13,
            MessageType::Spare => 14,
            MessageType::ClutterFilterMap => 15,
            MessageType::ReservedFAA16 => 16,
            MessageType::ReservedFAA17 => 17,
            MessageType::RDAAdaptationData => 18,
            MessageType::Reserved20 => 20,
            MessageType::Reserved21 => 21,
            MessageType::Reserved22 => 22,
            MessageType::Reserved23 => 23,
            MessageType::ReservedFAA24 => 24,
            MessageType::ReservedFAA25 => 25,
            MessageType::ReservedFAA26 => 26,
            MessageType::DigitalRadarDataGenericFormat => 31,
        }
    }
}

/// Maps the message-type byte of a header to its message type.
///
/// Every byte has an answer: a defined code gives its own variant, any other
/// byte gives `UnknownMessageType` with that byte, after which the payload
/// must not be decoded.
pub fn collate_message_type(message_header_type: u8) -> (r: Result<MessageType, DecodeError>)
    ensures
        r == message_type_of(message_header_type),
        r is Ok <==> is_message_code(message_header_type),
{
    match message_header_type {
        1 => Ok(MessageType::DigitalRadarData),
        2 => Ok(MessageType::RDAStatusData),
        3 => Ok(MessageType::PerformanceMaintenanceData),
        4 => Ok(MessageType::RDAConsoleMessage),
        5 => Ok(MessageType::RDAVolumeCoveragePattern),
        6 => Ok(MessageType::RDAControlCommand),
        7 => Ok(MessageType::RPGVolumeCoveragePattern),
        8 => Ok(MessageType::ClutterCensorZones),
        9 => Ok(MessageType::RequestForData),
        10 => Ok(MessageType::RPGConsoleMessage),
        11 => Ok(MessageType::LoopBackTestRDA),
        12 => Ok(MessageType::LoopBackTestRPG),
        13 => Ok(MessageType::ClutterFilterBypassMap),
        14 => Ok(MessageType::Spare),
        15 => Ok(MessageType::ClutterFilterMap),
        16 => Ok(MessageType::ReservedFAA16),
        17 => Ok(MessageType::ReservedFAA17),
        18 => Ok(MessageType::RDAAdaptationData),
        20 => Ok(MessageType::Reserved20),
        21 => Ok(MessageType::Reserved21),
        22 => Ok(MessageType::Reserved22),
        23 => Ok(MessageType::Reserved23),
        24 => Ok(MessageType::ReservedFAA24),
        25 => Ok(MessageType::ReservedFAA25),
        26 => Ok(MessageType::ReservedFAA26),
        31 => Ok(MessageType::DigitalRadarDataGenericFormat),
        _ => Err(DecodeError::UnknownMessageType(message_header_type)),
    }
}

/// A byte stands for a message type exactly when it is one of the defined
/// codes; every other byte is answered with `UnknownMessageType` and the
/// byte itself.
pub proof fn message_type_defined_iff(code: u8)
    ensures
        message_type_of(code) is Ok <==> is_message_code(code),
        !is_message_code(code) ==> message_type_of(code) == Err::<MessageType, DecodeError>(
            DecodeError::UnknownMessageType(code),
        ),
{
}

/// Two codes that stand for the same message type are the same code: each
/// defined code has a variant to itself.
pub proof fn message_types_distinct(a: u8, b: u8)
    requires
        message_type_of(a) is Ok,
        message_type_of(a) == message_type_of(b),
    ensures
        a == b,
{
}

/// The code of a message type is read back as that message type.
pub proof fn message_type_of_code(t: MessageType)
    ensures
        is_message_code(t.code_of()),
        message_type_of(t.code_of()) == Ok::<MessageType, DecodeError>(t),
{
}

} // verus!
