use nexrad_archive::error::DecodeError;
use nexrad_archive::messages::{MessageHeader, MessageType};
use nexrad_archive::reader::read_message_header;

fn header_bytes(
    size: i16,
    channel: i8,
    kind: u8,
    seq: i16,
    date: i16,
    ms: i32,
    n_segments: i16,
    segment_no: i16,
) -> Vec<u8> {
    let mut bytes: Vec<u8> = Vec::new();
    bytes.extend_from_slice(&size.to_be_bytes());
    bytes.extend_from_slice(&channel.to_be_bytes());
    bytes.push(kind);
    bytes.extend_from_slice(&seq.to_be_bytes());
    bytes.extend_from_slice(&date.to_be_bytes());
    bytes.extend_from_slice(&ms.to_be_bytes());
    bytes.extend_from_slice(&n_segments.to_be_bytes());
    bytes.extend_from_slice(&segment_no.to_be_bytes());
    bytes
}

fn record_with(header: &[u8]) -> Vec<u8> {
    let mut record: Vec<u8> = vec![0xaa; 12];
    record.extend_from_slice(header);
    record.extend_from_slice(&[0x55; 40]);
    record
}

#[test]
fn message_header_fields_in_order() {
    let bytes = header_bytes(1208, 8, 31, 517, 19_000, 43_200_000, 1, 1);
    assert_eq!(bytes.len(), 16);
    let (header, end) = MessageHeader::decode(&bytes, 0).unwrap();
    assert_eq!(end, 16);
    assert_eq!(
        header,
        MessageHeader {
            messagesize: 1208,
            rda_redundant_channel: 8,
            message_type: MessageType::DigitalRadarDataGenericFormat,
            id_seq_no: 517,
            julian_date: 19_000,
            ms_from_midnight: 43_200_000,
            n_segments: 1,
            message_segment_no: 1,
        }
    );
    assert!(header.is_well_formed());
    assert!(header.is_single_record());
}

#[test]
fn message_header_exact_bytes() {
    let bytes: [u8; 16] = [
        0x04, 0xb8, 0x08, 0x0f, 0x02, 0x05, 0x4a, 0x38, 0x02, 0x93, 0x2e, 0x00, 0x00, 0x4d, 0x00,
        0x03,
    ];
    let (header, _) = MessageHeader::decode(&bytes, 0).unwrap();
    assert_eq!(header.messagesize, 0x04b8);
    assert_eq!(header.rda_redundant_channel, 8);
    assert_eq!(header.message_type, MessageType::ClutterFilterMap);
    assert_eq!(header.id_seq_no, 0x0205);
    assert_eq!(header.julian_date, 0x4a38);
    assert_eq!(header.ms_from_midnight, 0x0293_2e00);
    assert_eq!(header.n_segments, 77);
    assert_eq!(header.message_segment_no, 3);
    assert!(!header.is_single_record());
}

#[test]
fn message_header_reads_signed_fields() {
    let bytes = header_bytes(-1, -128, 2, i16::MIN, -2, -3, -4, 7);
    let (header, _) = MessageHeader::decode(&bytes, 0).unwrap();
    assert_eq!(header.messagesize, -1);
    assert_eq!(header.rda_redundant_channel, -128);
    assert_eq!(header.id_seq_no, i16::MIN);
    assert_eq!(header.julian_date, -2);
    assert_eq!(header.ms_from_midnight, -3);
    assert_eq!(header.n_segments, -4);
    assert_eq!(header.message_segment_no, 7);
}

#[test]
fn read_message_header_skips_the_legacy_framing() {
    let record = record_with(&header_bytes(10, 0, 15, 1, 2, 3, 4, 2));
    let header = read_message_header(record).unwrap();
    assert_eq!(header.message_type, MessageType::ClutterFilterMap);
    assert_eq!(header.n_segments, 4);
    assert_eq!(header.message_segment_no, 2);
}

#[test]
fn message_header_of_15_bytes_is_truncated() {
    let bytes = header_bytes(1, 0, 31, 0, 0, 0, 1, 1);
    assert_eq!(
        MessageHeader::decode(&bytes[..15], 0),
        Err(DecodeError::Truncated { offset: 0, needed: 16 })
    );
    assert_eq!(
        read_message_header(vec![0; 27]),
        Err(DecodeError::Truncated { offset: 12, needed: 16 })
    );
    assert_eq!(
        read_message_header(Vec::new()),
        Err(DecodeError::Truncated { offset: 12, needed: 16 })
    );
}

#[test]
fn message_header_with_unknown_type_fails() {
    let bytes = header_bytes(1, 0, 19, 0, 0, 0, 1, 1);
    assert_eq!(
        MessageHeader::decode(&bytes, 0),
        Err(DecodeError::UnknownMessageType(19))
    );
    assert_eq!(
        read_message_header(vec![0; 2432]),
        Err(DecodeError::UnknownMessageType(0))
    );
}

#[test]
fn segment_number_lies_within_segment_count() {
    for n_segments in [-3_i16, 0, 1, 2, 5, 77, i16::MAX] {
        for segment_no in [i16::MIN, -1, 0, 1, 2, 5, 6, 77, 78, i16::MAX] {
            let bytes = header_bytes(1, 0, 15, 0, 0, 0, n_segments, segment_no);
            let fits = n_segments <= 1 || (1 <= segment_no && segment_no <= n_segments);
            match MessageHeader::decode(&bytes, 0) {
                Ok((header, _)) => {
                    assert!(fits);
                    if header.n_segments > 1 {
                        assert!(1 <= header.message_segment_no);
                        assert!(header.message_segment_no <= header.n_segments);
                    }
                }
                Err(e) => {
                    assert!(!fits);
                    assert_eq!(e, DecodeError::MalformedHeader { offset: 14 });
                }
            }
        }
    }
}

#[test]
fn segment_number_past_the_count_is_malformed() {
    let record = record_with(&header_bytes(1, 0, 15, 0, 0, 0, 3, 4));
    assert_eq!(
        read_message_header(record),
        Err(DecodeError::MalformedHeader { offset: 26 })
    );
    let record = record_with(&header_bytes(1, 0, 15, 0, 0, 0, 3, 0));
    assert_eq!(
        read_message_header(record),
        Err(DecodeError::MalformedHeader { offset: 26 })
    );
}

#[test]
fn unknown_type_is_reported_before_the_segment_number() {
    let bytes = header_bytes(1, 0, 200, 0, 0, 0, 3, 9);
    assert_eq!(
        MessageHeader::decode(&bytes, 0),
        Err(DecodeError::UnknownMessageType(200))
    );
}
