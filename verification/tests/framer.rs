use nexrad_archive::error::DecodeError;
use nexrad_archive::messages::{
    ClutterLimits, MessageType, Payload, PayloadDecoder, decode_payload,
};
use nexrad_archive::reader::{
    frame_messages, MESSAGE_HEADER_STARTING_BYTE_OFFSET, MESSAGE_PAYLOAD_OFFSET,
    MESSAGE_PAYLOAD_SIZE, MESSAGE_RECORD_SIZE,
};

const LIMITS: ClutterLimits = ClutterLimits {
    max_elevation_segments: 5,
    max_azimuth_segments: 360,
    max_range_zones: 20,
};

fn record(kind: u8, n_segments: i16, segment_no: i16, payload: &[u8]) -> Vec<u8> {
    let mut bytes: Vec<u8> = vec![0x77; 12];
    bytes.extend_from_slice(&[0x04, 0xb8, 0, kind, 0, 1, 0x4a, 0x38, 0, 0, 0, 9]);
    bytes.extend_from_slice(&n_segments.to_be_bytes());
    bytes.extend_from_slice(&segment_no.to_be_bytes());
    bytes.extend_from_slice(payload);
    bytes.resize(2432, 0);
    bytes
}

fn radar_payload() -> Vec<u8> {
    let mut bytes: Vec<u8> = Vec::new();
    bytes.extend_from_slice(b"KTST");
    bytes.extend_from_slice(&[0; 8]);
    bytes.extend_from_slice(&90.0_f32.to_be_bytes());
    bytes.extend_from_slice(&[0; 52]);
    bytes
}

#[test]
fn record_layout_constants() {
    assert_eq!(MESSAGE_RECORD_SIZE, 2432);
    assert_eq!(MESSAGE_HEADER_STARTING_BYTE_OFFSET, 12);
    assert_eq!(MESSAGE_PAYLOAD_OFFSET, 12 + 16);
    assert_eq!(MESSAGE_PAYLOAD_SIZE, 2432 - 12 - 16);
}

#[test]
fn frames_cut_each_record_at_its_seams() {
    let segment: Vec<u8> = (0..2432 * 3).map(|i| (i % 251) as u8).collect();
    let frames = frame_messages(&segment).unwrap();
    assert_eq!(frames.len(), 3);
    for (i, frame) in frames.iter().enumerate() {
        let start = i * 2432;
        assert_eq!(frame.offset, start);
        assert_eq!(frame.header.len(), 16);
        assert_eq!(frame.payload.len(), 2404);
        assert_eq!(frame.header, &segment[start + 12..start + 28]);
        assert_eq!(frame.payload, &segment[start + 28..start + 2432]);
    }
}

#[test]
fn empty_segment_has_no_frames() {
    assert!(frame_messages(&[]).unwrap().is_empty());
}

#[test]
fn zero_padding_after_the_last_record_is_dropped() {
    let mut segment: Vec<u8> = vec![5; 2432];
    segment.extend_from_slice(&[0; 100]);
    assert_eq!(frame_messages(&segment).unwrap().len(), 1);
    assert!(frame_messages(&[0; 2431]).unwrap().is_empty());
}

#[test]
fn other_bytes_after_the_last_record_are_refused() {
    let mut segment: Vec<u8> = vec![5; 2432 * 2];
    segment.extend_from_slice(&[0; 100]);
    segment.push(1);
    assert_eq!(
        frame_messages(&segment).err(),
        Some(DecodeError::UnexpectedTrailingBytes { offset: 4864 })
    );
    assert_eq!(
        frame_messages(&[9]).err(),
        Some(DecodeError::UnexpectedTrailingBytes { offset: 0 })
    );
    let mut short: Vec<u8> = vec![0; 2431];
    short[2430] = 0x80;
    assert_eq!(
        frame_messages(&short).err(),
        Some(DecodeError::UnexpectedTrailingBytes { offset: 0 })
    );
}

#[test]
fn radar_record_decodes_to_a_typed_payload() {
    let segment = record(31, 1, 1, &radar_payload());
    let frames = frame_messages(&segment).unwrap();
    let message = frames[0].decode(&LIMITS).unwrap();
    assert_eq!(message.header.message_type, MessageType::DigitalRadarDataGenericFormat);
    match message.payload {
        Payload::RadarData(header) => {
            assert_eq!(header.radar_identifier, "KTST");
            assert_eq!(f32::from_bits(header.azimuth_angle_bits), 90.0);
        }
        other => panic!("{other:?}"),
    }
}

#[test]
fn clutter_record_decodes_to_a_typed_payload() {
    let payload: [u8; 18] = [0, 1, 0, 2, 0, 1, 0, 1, 0, 2, 0, 3, 0, 4, 0, 5, 0, 6];
    let segment = record(15, 1, 1, &payload);
    let frames = frame_messages(&segment).unwrap();
    let message = frames[0].decode(&LIMITS).unwrap();
    match message.payload {
        Payload::ClutterFilterMap(map) => {
            assert_eq!(map.num_elevation_segments, 1);
            let zones = &map.elevation_segments[0].azimuth_segments[0].range_zones;
            assert_eq!(zones.len(), 2);
            assert_eq!(zones[1].endrange, 6);
        }
        other => panic!("{other:?}"),
    }
}

#[test]
fn recognised_type_without_decoder_is_returned_unparsed() {
    let segment = record(2, 1, 1, &[1, 2, 3]);
    let frames = frame_messages(&segment).unwrap();
    let message = frames[0].decode(&LIMITS).unwrap();
    assert_eq!(message.header.message_type, MessageType::RDAStatusData);
    match message.payload {
        Payload::Unparsed(bytes) => {
            assert_eq!(bytes.len(), 2404);
            assert_eq!(&bytes[..4], &[1, 2, 3, 0]);
            assert_eq!(&bytes[..], frames[0].payload);
        }
        other => panic!("{other:?}"),
    }
}

#[test]
fn record_of_a_longer_message_is_returned_unparsed() {
    let segment = record(15, 3, 2, &[0xff; 2404]);
    let frames = frame_messages(&segment).unwrap();
    let message = frames[0].decode(&LIMITS).unwrap();
    assert_eq!(message.header.n_segments, 3);
    assert_eq!(message.header.message_segment_no, 2);
    assert_eq!(message.payload, Payload::Unparsed(vec![0xff; 2404]));
}

#[test]
fn record_with_unknown_type_fails() {
    let segment = record(0, 0, 0, &[]);
    let frames = frame_messages(&segment).unwrap();
    assert_eq!(frames[0].decode(&LIMITS), Err(DecodeError::UnknownMessageType(0)));
}

#[test]
fn record_with_bad_payload_fails_as_its_decoder_does() {
    let segment = record(15, 1, 1, &[0, 0, 0, 0, 0, 9]);
    let frames = frame_messages(&segment).unwrap();
    assert_eq!(
        frames[0].decode(&LIMITS),
        Err(DecodeError::CountOutOfRange { offset: 4, count: 9, ceiling: 5 })
    );
    let mut payload = radar_payload();
    payload[0] = 0xfe;
    let segment = record(31, 1, 1, &payload);
    let frames = frame_messages(&segment).unwrap();
    assert_eq!(frames[0].decode(&LIMITS), Err(DecodeError::MalformedHeader { offset: 0 }));
}

#[test]
fn decode_payload_by_decoder() {
    assert_eq!(
        decode_payload(PayloadDecoder::Unparsed, &[4, 5, 6], &LIMITS),
        Ok(Payload::Unparsed(vec![4, 5, 6]))
    );
    assert_eq!(
        decode_payload(PayloadDecoder::GenericRadarHeader, &[4, 5, 6], &LIMITS),
        Err(DecodeError::Truncated { offset: 0, needed: 68 })
    );
    assert_eq!(
        decode_payload(PayloadDecoder::ClutterFilterMap, &[4, 5, 6], &LIMITS),
        Err(DecodeError::Truncated { offset: 2, needed: 2 })
    );
    assert!(matches!(
        decode_payload(PayloadDecoder::GenericRadarHeader, &radar_payload(), &LIMITS),
        Ok(Payload::RadarData(_))
    ));
}
