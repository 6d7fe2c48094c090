use nexrad_archive::error::DecodeError;
use nexrad_archive::messages::{collate_message_type, MessageType, PayloadDecoder};

fn is_defined_code(code: u8) -> bool {
    (1..=18).contains(&code) || (20..=26).contains(&code) || code == 31
}

#[test]
fn every_byte_has_an_answer() {
    for code in 0..=255_u8 {
        match collate_message_type(code) {
            Ok(kind) => {
                assert!(is_defined_code(code), "code {code} should be unknown");
                assert_eq!(kind.code(), code);
            }
            Err(e) => {
                assert!(!is_defined_code(code), "code {code} should be defined");
                assert_eq!(e, DecodeError::UnknownMessageType(code));
            }
        }
    }
}

#[test]
fn defined_codes_map_to_distinct_variants() {
    let mut seen: Vec<MessageType> = Vec::new();
    for code in 0..=255_u8 {
        if let Ok(kind) = collate_message_type(code) {
            assert!(!seen.contains(&kind), "code {code} shares its variant");
            seen.push(kind);
        }
    }
    assert_eq!(seen.len(), 26);
}

#[test]
fn message_type_decode_is_repeatable() {
    for code in 0..=255_u8 {
        assert_eq!(collate_message_type(code), collate_message_type(code));
    }
}

#[test]
fn well_known_codes() {
    assert_eq!(collate_message_type(1), Ok(MessageType::DigitalRadarData));
    assert_eq!(collate_message_type(2), Ok(MessageType::RDAStatusData));
    assert_eq!(collate_message_type(3), Ok(MessageType::PerformanceMaintenanceData));
    assert_eq!(collate_message_type(4), Ok(MessageType::RDAConsoleMessage));
    assert_eq!(collate_message_type(5), Ok(MessageType::RDAVolumeCoveragePattern));
    assert_eq!(collate_message_type(6), Ok(MessageType::RDAControlCommand));
    assert_eq!(collate_message_type(7), Ok(MessageType::RPGVolumeCoveragePattern));
    assert_eq!(collate_message_type(8), Ok(MessageType::ClutterCensorZones));
    assert_eq!(collate_message_type(9), Ok(MessageType::RequestForData));
    assert_eq!(collate_message_type(10), Ok(MessageType::RPGConsoleMessage));
    assert_eq!(collate_message_type(11), Ok(MessageType::LoopBackTestRDA));
    assert_eq!(collate_message_type(12), Ok(MessageType::LoopBackTestRPG));
    assert_eq!(collate_message_type(13), Ok(MessageType::ClutterFilterBypassMap));
    assert_eq!(collate_message_type(14), Ok(MessageType::Spare));
    assert_eq!(collate_message_type(15), Ok(MessageType::ClutterFilterMap));
    assert_eq!(collate_message_type(18), Ok(MessageType::RDAAdaptationData));
    assert_eq!(collate_message_type(31), Ok(MessageType::DigitalRadarDataGenericFormat));
}

#[test]
fn reserved_codes_are_valid_and_apart() {
    assert_eq!(collate_message_type(16), Ok(MessageType::ReservedFAA16));
    assert_eq!(collate_message_type(17), Ok(MessageType::ReservedFAA17));
    assert_eq!(collate_message_type(20), Ok(MessageType::Reserved20));
    assert_eq!(collate_message_type(21), Ok(MessageType::Reserved21));
    assert_eq!(collate_message_type(22), Ok(MessageType::Reserved22));
    assert_eq!(collate_message_type(23), Ok(MessageType::Reserved23));
    assert_eq!(collate_message_type(24), Ok(MessageType::ReservedFAA24));
    assert_eq!(collate_message_type(25), Ok(MessageType::ReservedFAA25));
    assert_eq!(collate_message_type(26), Ok(MessageType::ReservedFAA26));
    assert_ne!(collate_message_type(16), collate_message_type(17));
    assert_ne!(collate_message_type(20), collate_message_type(23));
    assert_ne!(collate_message_type(17), collate_message_type(24));
}

#[test]
fn undefined_codes_fail_with_their_code() {
    assert_eq!(collate_message_type(0), Err(DecodeError::UnknownMessageType(0)));
    assert_eq!(collate_message_type(19), Err(DecodeError::UnknownMessageType(19)));
    assert_eq!(collate_message_type(27), Err(DecodeError::UnknownMessageType(27)));
    assert_eq!(collate_message_type(30), Err(DecodeError::UnknownMessageType(30)));
    assert_eq!(collate_message_type(32), Err(DecodeError::UnknownMessageType(32)));
    assert_eq!(collate_message_type(128), Err(DecodeError::UnknownMessageType(128)));
    assert_eq!(collate_message_type(255), Err(DecodeError::UnknownMessageType(255)));
}

#[test]
fn only_two_types_have_a_payload_decoder() {
    for code in 0..=255_u8 {
        if let Ok(kind) = collate_message_type(code) {
            let expected = match code {
                31 => PayloadDecoder::GenericRadarHeader,
                15 => PayloadDecoder::ClutterFilterMap,
                _ => PayloadDecoder::Unparsed,
            };
            assert_eq!(kind.payload_decoder(), expected);
        }
    }
}
