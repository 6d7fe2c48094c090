use nexrad_archive::error::DecodeError;
use nexrad_archive::messages::{
    DigitalRadarDataGenericFormatHeader, Message31DataBlock,
    DIGITAL_RADAR_DATA_GENERIC_FORMAT_HEADER_SIZE,
};
use nexrad_archive::reader::read_data_header;

fn generic_header_payload() -> Vec<u8> {
    let mut bytes: Vec<u8> = Vec::new();
    bytes.extend_from_slice(b"KTLX");
    bytes.extend_from_slice(&43_200_000_i32.to_be_bytes());
    bytes.extend_from_slice(&19_000_i16.to_be_bytes());
    bytes.extend_from_slice(&360_i16.to_be_bytes());
    bytes.extend_from_slice(&359.5_f32.to_be_bytes());
    bytes.push(0);
    bytes.push(7);
    bytes.extend_from_slice(&9_360_i16.to_be_bytes());
    bytes.push(1);
    bytes.push(3);
    bytes.push(0xfe);
    bytes.push(0x81);
    bytes.extend_from_slice(&0.483_f32.to_be_bytes());
    bytes.push(4);
    bytes.push(25);
    bytes.extend_from_slice(&9_i16.to_be_bytes());
    for pointer in [68_i32, 112, 124, 144, 1_372, 2_600, -1, 0, i32::MAX] {
        bytes.extend_from_slice(&pointer.to_be_bytes());
    }
    bytes
}

#[test]
fn generic_header_is_68_bytes() {
    assert_eq!(DIGITAL_RADAR_DATA_GENERIC_FORMAT_HEADER_SIZE, 68);
    assert_eq!(generic_header_payload().len(), 68);
}

#[test]
fn generic_header_fields_in_order() {
    let payload = generic_header_payload();
    let (header, end) = DigitalRadarDataGenericFormatHeader::decode(&payload, 0).unwrap();
    assert_eq!(end, 68);
    assert_eq!(header.radar_identifier, "KTLX");
    assert_eq!(header.collection_time, 43_200_000);
    assert_eq!(header.modified_julian_date, 19_000);
    assert_eq!(header.azimuth_number, 360);
    assert_eq!(header.compression_indicator, 0);
    assert_eq!(header.spare_byte, 7);
    assert_eq!(header.radial_length, 9_360);
    assert_eq!(header.az_res_spacing, 1);
    assert_eq!(header.radial_status, 3);
    assert_eq!(header.elevation_number, -2);
    assert_eq!(header.cut_sector_number, -127);
    assert_eq!(header.radial_spot_blanking_status, 4);
    assert_eq!(header.azimuth_indexing_mode, 25);
    assert_eq!(header.data_block_count, 9);
    assert_eq!(header.const_vol_data_block_pointer, 68);
    assert_eq!(header.const_elevation_data_block_pointer, 112);
    assert_eq!(header.const_radial_data_block_pointer, 124);
    assert_eq!(header.reflectivity_block_pointer, 144);
    assert_eq!(header.velocity_block_pointer, 1_372);
    assert_eq!(header.sw_block_pointer, 2_600);
    assert_eq!(header.diff_ref_block_pointer, -1);
    assert_eq!(header.phi_block_pointer, 0);
    assert_eq!(header.rho_block_pointer, i32::MAX);
}

#[test]
fn generic_header_angles_are_floats() {
    let payload = generic_header_payload();
    let (header, _) = DigitalRadarDataGenericFormatHeader::decode(&payload, 0).unwrap();
    assert_eq!(f32::from_bits(header.azimuth_angle_bits), 359.5_f32);
    assert_eq!(f32::from_bits(header.elevation_angle_bits), 0.483_f32);
    assert_eq!(header.azimuth_angle_bits, 0x43b3_c000);
    assert_ne!(header.azimuth_angle_bits, 359);
}

#[test]
fn generic_header_truncated_to_67_bytes_fails() {
    let payload = generic_header_payload();
    assert_eq!(
        DigitalRadarDataGenericFormatHeader::decode(&payload[..67], 0),
        Err(DecodeError::Truncated { offset: 0, needed: 68 })
    );
}

#[test]
fn generic_header_of_every_shorter_length_is_truncated() {
    let payload = generic_header_payload();
    for len in 0..68 {
        assert_eq!(
            DigitalRadarDataGenericFormatHeader::decode(&payload[..len], 0),
            Err(DecodeError::Truncated { offset: 0, needed: 68 })
        );
    }
    assert!(DigitalRadarDataGenericFormatHeader::decode(&payload[..68], 0).is_ok());
}

#[test]
fn generic_header_with_an_identifier_that_is_not_utf8_is_malformed() {
    let mut payload = generic_header_payload();
    payload[2] = 0xc3;
    assert_eq!(
        DigitalRadarDataGenericFormatHeader::decode(&payload, 0),
        Err(DecodeError::MalformedHeader { offset: 0 })
    );
    payload[..4].copy_from_slice(&[0xff, b'T', b'L', b'X']);
    assert_eq!(
        DigitalRadarDataGenericFormatHeader::decode(&payload, 0),
        Err(DecodeError::MalformedHeader { offset: 0 })
    );
}

#[test]
fn generic_header_takes_an_identifier_that_is_utf8_and_not_ascii() {
    let mut payload = generic_header_payload();
    payload[..4].copy_from_slice(&[0xc3, 0xa9, 0x41, 0x42]);
    let (header, end) = DigitalRadarDataGenericFormatHeader::decode(&payload, 0).unwrap();
    assert_eq!(end, 68);
    assert_eq!(header.radar_identifier, "\u{e9}AB");
    assert_eq!(header.radar_identifier.as_bytes(), &payload[..4]);
    assert_eq!(header.radar_identifier.chars().count(), 3);
    let (ascii, _) =
        DigitalRadarDataGenericFormatHeader::decode(&generic_header_payload(), 0).unwrap();
    assert_eq!(
        DigitalRadarDataGenericFormatHeader {
            radar_identifier: String::from("KTLX"),
            ..header.clone()
        },
        ascii
    );
    assert_eq!(header.collection_time, 43_200_000);
    assert_eq!(header.azimuth_angle_bits, 359.5_f32.to_bits());
    assert_eq!(header.elevation_angle_bits, 0.483_f32.to_bits());
    assert_eq!(header.rho_block_pointer, i32::MAX);
}

#[test]
fn record_of_96_bytes_with_a_utf8_identifier_decodes() {
    let mut record: Vec<u8> = vec![0x11; 28];
    record.extend_from_slice(&generic_header_payload());
    record[28..32].copy_from_slice(&[0xc3, 0xa9, 0x41, 0x42]);
    assert_eq!(record.len(), 96);
    let header = read_data_header(&record).unwrap();
    assert_eq!(header.radar_identifier, "\u{e9}AB");
    assert_eq!(header.modified_julian_date, 19_000);
    assert_eq!(
        read_data_header(&record[..95].to_vec()),
        Err(DecodeError::Truncated { offset: 28, needed: 68 })
    );
    record[29] = 0x41;
    assert_eq!(
        read_data_header(&record),
        Err(DecodeError::MalformedHeader { offset: 28 })
    );
}

#[test]
fn read_data_header_skips_framing_and_message_header() {
    let mut record: Vec<u8> = vec![0x11; 28];
    record.extend_from_slice(&generic_header_payload());
    record.extend_from_slice(&[0x22; 100]);
    let header = read_data_header(&record).unwrap();
    assert_eq!(header.radar_identifier, "KTLX");
    assert_eq!(header.rho_block_pointer, i32::MAX);
    let (same, end) = DigitalRadarDataGenericFormatHeader::decode(&record, 28).unwrap();
    assert_eq!(end, 96);
    assert_eq!(same, header);
}

#[test]
fn read_data_header_of_a_short_record_is_truncated() {
    let mut record: Vec<u8> = vec![0x11; 28];
    record.extend_from_slice(&generic_header_payload()[..67]);
    assert_eq!(
        read_data_header(&record),
        Err(DecodeError::Truncated { offset: 28, needed: 68 })
    );
    assert_eq!(
        read_data_header(&vec![0; 5]),
        Err(DecodeError::Truncated { offset: 28, needed: 68 })
    );
}

#[test]
fn data_block_opens_with_its_type() {
    let window: [u8; 5] = [0x00, 0x52, 0xff, 0x9c, 0x01];
    assert_eq!(
        Message31DataBlock::decode(&window, 0),
        Ok((Message31DataBlock { block_type: 0x52 }, 2))
    );
    assert_eq!(
        Message31DataBlock::decode(&window, 2),
        Ok((Message31DataBlock { block_type: -100 }, 4))
    );
    assert_eq!(
        Message31DataBlock::decode(&window, 4),
        Err(DecodeError::Truncated { offset: 4, needed: 2 })
    );
}
