use nexrad_archive::error::DecodeError;
use nexrad_archive::messages::{
    AzimuthSegment, ClutterFilterMapMetadata, ClutterLimits, ElevationSegment, RangeZone,
};

const WIDE: ClutterLimits = ClutterLimits {
    max_elevation_segments: 5,
    max_azimuth_segments: 360,
    max_range_zones: 20,
};

fn put_u16(bytes: &mut Vec<u8>, v: u16) {
    bytes.extend_from_slice(&v.to_be_bytes());
}

fn put_i16(bytes: &mut Vec<u8>, v: i16) {
    bytes.extend_from_slice(&v.to_be_bytes());
}

fn encode_map(map: &ClutterFilterMapMetadata) -> Vec<u8> {
    let mut bytes: Vec<u8> = Vec::new();
    put_i16(&mut bytes, map.map_generation_date);
    put_i16(&mut bytes, map.map_generation_time);
    put_u16(&mut bytes, map.elevation_segments.len() as u16);
    for elevation in &map.elevation_segments {
        put_u16(&mut bytes, elevation.azimuth_segments.len() as u16);
        for azimuth in &elevation.azimuth_segments {
            put_u16(&mut bytes, azimuth.range_zones.len() as u16);
            for zone in &azimuth.range_zones {
                put_i16(&mut bytes, zone.opcode);
                put_i16(&mut bytes, zone.endrange);
            }
        }
    }
    bytes
}

fn sample_map() -> ClutterFilterMapMetadata {
    let mut elevation_segments: Vec<ElevationSegment> = Vec::new();
    for e in 0..3_i16 {
        let mut azimuth_segments: Vec<AzimuthSegment> = Vec::new();
        for a in 0..(4 + e) {
            let mut range_zones: Vec<RangeZone> = Vec::new();
            for r in 0..((a + e) % 4) {
                range_zones.push(RangeZone { opcode: r - 1, endrange: 100 * a + r - 300 });
            }
            azimuth_segments.push(AzimuthSegment {
                num_rangezones: range_zones.len() as u16,
                range_zones,
            });
        }
        elevation_segments.push(ElevationSegment { azimuth_segments });
    }
    ClutterFilterMapMetadata {
        map_generation_date: 19_000,
        map_generation_time: -7,
        num_elevation_segments: 3,
        elevation_segments,
    }
}

#[test]
fn crafted_clutter_map_decodes() {
    let mut payload: Vec<u8> = Vec::new();
    put_i16(&mut payload, 0x1234);
    put_i16(&mut payload, 0x0567);
    put_u16(&mut payload, 1);
    put_u16(&mut payload, 1);
    put_u16(&mut payload, 2);
    put_i16(&mut payload, 2);
    put_i16(&mut payload, 150);
    put_i16(&mut payload, 1);
    put_i16(&mut payload, 511);
    assert_eq!(payload.len(), 6 + 2 + 2 + 8);
    let (map, cursor) = ClutterFilterMapMetadata::decode(&payload, 0, &WIDE).unwrap();
    assert_eq!(map.map_generation_date, 0x1234);
    assert_eq!(map.map_generation_time, 0x0567);
    assert_eq!(map.num_elevation_segments, 1);
    assert_eq!(map.elevation_segments.len(), 1);
    assert_eq!(map.elevation_segments[0].azimuth_segments.len(), 1);
    let azimuth = &map.elevation_segments[0].azimuth_segments[0];
    assert_eq!(azimuth.num_rangezones, 2);
    assert_eq!(
        azimuth.range_zones,
        vec![
            RangeZone { opcode: 2, endrange: 150 },
            RangeZone { opcode: 1, endrange: 511 }
        ]
    );
    assert_eq!(cursor, payload.len());
    assert_eq!(cursor, 18);
}

#[test]
fn clutter_map_round_trips() {
    let map = sample_map();
    let payload = encode_map(&map);
    let (decoded, cursor) = ClutterFilterMapMetadata::decode(&payload, 0, &WIDE).unwrap();
    assert_eq!(decoded, map);
    assert_eq!(cursor, payload.len());
    assert_eq!(encode_map(&decoded), payload);
}

#[test]
fn clutter_map_stops_at_its_last_byte() {
    let map = sample_map();
    let mut window: Vec<u8> = vec![0xee; 5];
    let encoded = encode_map(&map);
    window.extend_from_slice(&encoded);
    window.extend_from_slice(&[0xdd; 9]);
    let (decoded, cursor) = ClutterFilterMapMetadata::decode(&window, 5, &WIDE).unwrap();
    assert_eq!(decoded, map);
    assert_eq!(cursor, 5 + encoded.len());
    assert_eq!(&window[5..cursor], &encoded[..]);
}

#[test]
fn clutter_map_counts_drive_the_sizes() {
    let map = sample_map();
    let (decoded, _) = ClutterFilterMapMetadata::decode(&encode_map(&map), 0, &WIDE).unwrap();
    assert_eq!(decoded.num_elevation_segments as usize, decoded.elevation_segments.len());
    let sizes: Vec<usize> =
        decoded.elevation_segments.iter().map(|e| e.azimuth_segments.len()).collect();
    assert_eq!(sizes, vec![4, 5, 6]);
    for elevation in &decoded.elevation_segments {
        for azimuth in &elevation.azimuth_segments {
            assert_eq!(azimuth.num_rangezones as usize, azimuth.range_zones.len());
        }
    }
}

#[test]
fn empty_clutter_map_is_six_bytes() {
    let payload: [u8; 6] = [0xff, 0xfe, 0x00, 0x03, 0x00, 0x00];
    let (map, cursor) = ClutterFilterMapMetadata::decode(&payload, 0, &WIDE).unwrap();
    assert_eq!(cursor, 6);
    assert_eq!(map.map_generation_date, -2);
    assert_eq!(map.map_generation_time, 3);
    assert_eq!(map.num_elevation_segments, 0);
    assert!(map.elevation_segments.is_empty());
}

#[test]
fn clutter_map_truncated_at_every_length() {
    let payload = encode_map(&sample_map());
    for len in 0..payload.len() {
        match ClutterFilterMapMetadata::decode(&payload[..len], 0, &WIDE) {
            Err(DecodeError::Truncated { offset, needed }) => {
                assert_eq!(needed, 2);
                assert!(offset <= len);
                assert!(offset + needed > len);
            }
            other => panic!("length {len}: {other:?}"),
        }
    }
}

#[test]
fn clutter_map_truncation_offsets() {
    assert_eq!(
        ClutterFilterMapMetadata::decode(&[0, 1, 0], 0, &WIDE),
        Err(DecodeError::Truncated { offset: 2, needed: 2 })
    );
    assert_eq!(
        ClutterFilterMapMetadata::decode(&[0, 1, 0, 2, 0], 0, &WIDE),
        Err(DecodeError::Truncated { offset: 4, needed: 2 })
    );
    let payload: [u8; 14] = [0, 1, 0, 2, 0, 1, 0, 1, 0, 2, 0, 9, 0, 8];
    assert_eq!(
        ClutterFilterMapMetadata::decode(&payload, 0, &WIDE),
        Err(DecodeError::Truncated { offset: 14, needed: 2 })
    );
    assert_eq!(
        ClutterFilterMapMetadata::decode(&payload[..13], 0, &WIDE),
        Err(DecodeError::Truncated { offset: 12, needed: 2 })
    );
}

#[test]
fn clutter_map_count_above_ceiling_fails() {
    let payload: [u8; 6] = [0, 0, 0, 0, 0, 6];
    assert_eq!(
        ClutterFilterMapMetadata::decode(&payload, 0, &WIDE),
        Err(DecodeError::CountOutOfRange { offset: 4, count: 6, ceiling: 5 })
    );
    let payload: [u8; 8] = [0, 0, 0, 0, 0, 1, 0x01, 0x69];
    assert_eq!(
        ClutterFilterMapMetadata::decode(&payload, 0, &WIDE),
        Err(DecodeError::CountOutOfRange { offset: 6, count: 361, ceiling: 360 })
    );
    let payload: [u8; 10] = [0, 0, 0, 0, 0, 1, 0, 1, 0xff, 0xff];
    assert_eq!(
        ClutterFilterMapMetadata::decode(&payload, 0, &WIDE),
        Err(DecodeError::CountOutOfRange { offset: 8, count: 65_535, ceiling: 20 })
    );
}

#[test]
fn clutter_map_counts_at_the_ceiling_pass() {
    let limits = ClutterLimits {
        max_elevation_segments: 1,
        max_azimuth_segments: 2,
        max_range_zones: 1,
    };
    let payload: [u8; 20] = [0, 0, 0, 0, 0, 1, 0, 2, 0, 1, 0, 7, 0, 8, 0, 1, 0, 9, 0, 10];
    let (map, cursor) = ClutterFilterMapMetadata::decode(&payload, 0, &limits).unwrap();
    assert_eq!(cursor, 20);
    assert_eq!(map.elevation_segments[0].azimuth_segments[1].range_zones[0].endrange, 10);
}

#[test]
fn levels_decode_on_their_own() {
    let bytes: [u8; 14] = [0, 2, 0, 1, 0xff, 0xff, 0x80, 0x00, 0, 1, 0, 5, 0, 6];
    let (elevation, end) = ElevationSegment::decode(&bytes, 0, &WIDE).unwrap();
    assert_eq!(end, 14);
    assert_eq!(elevation.azimuth_segments.len(), 2);
    let (azimuth, end) = AzimuthSegment::decode(&bytes, 2, &WIDE).unwrap();
    assert_eq!(end, 8);
    assert_eq!(azimuth.range_zones, vec![RangeZone { opcode: -1, endrange: i16::MIN }]);
    let (zone, end) = RangeZone::decode(&bytes, 10).unwrap();
    assert_eq!(end, 14);
    assert_eq!(zone, RangeZone { opcode: 5, endrange: 6 });
    assert_eq!(
        RangeZone::decode(&bytes, 11),
        Err(DecodeError::Truncated { offset: 13, needed: 2 })
    );
    assert_eq!(RangeZone::new(), RangeZone { opcode: 0, endrange: 0 });
}

#[test]
fn default_limits_are_the_sizes_of_the_interface() {
    let limits = ClutterLimits::default();
    assert_eq!(limits, WIDE);
    assert_eq!(limits.max_elevation_segments, 5);
    assert_eq!(limits.max_azimuth_segments, 360);
    assert_eq!(limits.max_range_zones, 20);
}

#[test]
fn full_size_map_decodes_under_the_default_limits() {
    let zone = RangeZone { opcode: 1, endrange: 511 };
    let azimuth = AzimuthSegment { num_rangezones: 20, range_zones: vec![zone; 20] };
    let elevation = ElevationSegment { azimuth_segments: vec![azimuth; 360] };
    let map = ClutterFilterMapMetadata {
        map_generation_date: 1,
        map_generation_time: 2,
        num_elevation_segments: 5,
        elevation_segments: vec![elevation; 5],
    };
    let payload = encode_map(&map);
    assert_eq!(payload.len(), 6 + 5 * (2 + 360 * (2 + 20 * 4)));
    let (decoded, cursor) =
        ClutterFilterMapMetadata::decode(&payload, 0, &ClutterLimits::default()).unwrap();
    assert_eq!(cursor, payload.len());
    assert_eq!(decoded, map);
}

#[test]
fn azimuth_segment_counts_its_zones() {
    let zones = vec![RangeZone { opcode: 3, endrange: 9 }; 7];
    let segment = AzimuthSegment::new(zones.clone()).unwrap();
    assert_eq!(segment.num_rangezones, 7);
    assert_eq!(segment.range_zones, zones);
    assert_eq!(
        AzimuthSegment::new(Vec::new()),
        Some(AzimuthSegment { num_rangezones: 0, range_zones: Vec::new() })
    );
    assert!(AzimuthSegment::new(vec![RangeZone::new(); 65_535]).is_some());
    assert_eq!(AzimuthSegment::new(vec![RangeZone::new(); 65_536]), None);
}

#[test]
fn cursor_moves_by_what_the_counts_add_up_to() {
    let map = sample_map();
    let payload = encode_map(&map);
    let (decoded, cursor) = ClutterFilterMapMetadata::decode(&payload, 0, &WIDE).unwrap();
    let mut expected = 6;
    for elevation in &decoded.elevation_segments {
        expected += 2;
        for azimuth in &elevation.azimuth_segments {
            expected += 2 + 4 * azimuth.range_zones.len();
        }
    }
    assert_eq!(cursor, expected);
    assert_eq!(cursor, payload.len());
    assert_eq!(expected, 6 + (2 + 2 * 4 + 4 * 6) + (2 + 2 * 5 + 4 * 7) + (2 + 2 * 6 + 4 * 11));
    assert_eq!(expected, 138);
}
