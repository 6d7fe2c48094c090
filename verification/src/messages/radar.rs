//! The fixed header that opens the payload of a generic-format radar data
//! message (message type 31).

use vstd::prelude::*;
use crate::error::DecodeError;
use crate::wire::{
    has_bytes, holds, i16_at, i16_in, i32_at, i32_in, i8_at, i8_in, read_i16, read_utf8,
    truncated, u32_at, u32_in, u8_at, utf8_fault,
};

verus! {

/// The number of bytes that the header takes on the wire.
pub const DIGITAL_RADAR_DATA_GENERIC_FORMAT_HEADER_SIZE: usize = 68;

/// The header of one radial of generic-format radar data.
///
/// The two angles are IEEE-754 single-precision numbers on the wire. They are
/// kept here as the 32 bits that were read, high byte first, and are never
/// taken for integers: `f32::from_bits` gives the angle in degrees.
#[derive(Debug, Clone, PartialEq, Eq)]
pub struct DigitalRadarDataGenericFormatHeader {
    pub radar_identifier: String,
    pub collection_time: i32,
    pub modified_julian_date: i16,
    pub azimuth_number: i16,
    pub azimuth_angle_bits: u32,
    pub compression_indicator: u8,
    pub spare_byte: u8,
    pub radial_length: i16,
    pub az_res_spacing: u8,
    pub radial_status: u8,
    pub elevation_number: i8,
    pub cut_sector_number: i8,
    pub elevation_angle_bits: u32,
    pub radial_spot_blanking_status: u8,
    pub azimuth_indexing_mode: u8,
    pub data_block_count: i16,
    pub const_vol_data_block_pointer: i32,
    pub const_elevation_data_block_pointer: i32,
    pub const_radial_data_block_pointer: i32,
    pub reflectivity_block_pointer: i32,
    pub velocity_block_pointer: i32,
    pub sw_block_pointer: i32,
    pub diff_ref_block_pointer: i32,
    pub phi_block_pointer: i32,
    pub rho_block_pointer: i32,
}

/// The opening of a data block, to which one of the block pointers of the
/// header leads.
#[derive(Debug, Clone, Copy, PartialEq, Eq, Structural)]
pub struct Message31DataBlock {
    pub block_type: i16,
}

impl Message31DataBlock {
    /// Decodes the opening of the data block at `cursor`: one signed
    /// halfword, high byte first. Returns it with the cursor moved by 2.
    ///
    /// Fails with `Truncated` when fewer than 2 bytes follow the cursor.
    pub fn decode(window: &[u8], cursor: usize) -> (r: Result<(Self, usize), DecodeError>)
        ensures
            r == (if holds(window@, cursor as int, 2) {
                Ok((Message31DataBlock { block_type: i16_at(window@, cursor as int) }, (cursor + 2) as usize))
            } else {
                Err(truncated(cursor, 2))
            }),
    {
        match read_i16(window, cursor) {
            Ok(block_type) => Ok((Message31DataBlock { block_type }, cursor + 2)),
            Err(e) => Err(e),
        }
    }
}

/// Why no header can be decoded from `w` at `at`, if so: the window ends
/// before the 68th byte, or the radar identifier is not valid UTF-8.
pub open spec fn radar_header_fault(w: Seq<u8>, at: usize) -> Option<DecodeError> {
    if !holds(w, at as int, 68) {
        Some(truncated(at, DIGITAL_RADAR_DATA_GENERIC_FORMAT_HEADER_SIZE))
    } else {
        utf8_fault(w, at, 4)
    }
}

impl DigitalRadarDataGenericFormatHeader {
    /// Whether `self` holds, field by field, what the 68 bytes of `w` from
    /// `at` on say.
    pub open spec fn decoded_from(&self, w: Seq<u8>, at: int) -> bool {
        &&& self.radar_identifier@ == vstd::utf8::decode_utf8(w.subrange(at, at + 4))
        &&& self.collection_time == i32_at(w, at + 4)
        &&& self.modified_julian_date == i16_at(w, at + 8)
        &&& self.azimuth_number == i16_at(w, at + 10)
        &&& self.azimuth_angle_bits == u32_at(w, at + 12)
        &&& self.compression_indicator == u8_at(w, at + 16)
        &&& self.spare_byte == u8_at(w, at + 17)
        &&& self.radial_length == i16_at(w, at + 18)
        &&& self.az_res_spacing == u8_at(w, at + 20)
        &&& self.radial_status == u8_at(w, at + 21)
        &&& self.elevation_number == i8_at(w, at + 22)
        &&& self.cut_sector_number == i8_at(w, at + 23)
        &&& self.elevation_angle_bits == u32_at(w, at + 24)
        &&& self.radial_spot_blanking_status == u8_at(w, at + 28)
        &&& self.azimuth_indexing_mode == u8_at(w, at + 29)
        &&& self.data_block_count == i16_at(w, at + 30)
        &&& self.const_vol_data_block_pointer == i32_at(w, at + 32)
        &&& self.const_elevation_data_block_pointer == i32_at(w, at + 36)
        &&& self.const_radial_data_block_pointer == i32_at(w, at + 40)
        &&& self.reflectivity_block_pointer == i32_at(w, at + 44)
        &&& self.velocity_block_pointer == i32_at(w, at + 48)
        &&& self.sw_block_pointer == i32_at(w, at + 52)
        &&& self.diff_ref_block_pointer == i32_at(w, at + 56)
        &&& self.phi_block_pointer == i32_at(w, at + 60)
        &&& self.rho_block_pointer == i32_at(w, at + 64)
    }

    /// Decodes the header that starts at `cursor` in `window` and returns it
    /// with the cursor moved past its 68 bytes.
    ///
    /// Fails with `Truncated` when fewer than 68 bytes follow the cursor, and
    /// with `MalformedHeader` when the four bytes of the radar identifier
    /// are not valid UTF-8. No byte outside the window is read.
    pub fn decode(window: &[u8], cursor: usize) -> (r: Result<(Self, usize), DecodeError>)
        ensures
            match r {
                Ok((header, end)) => radar_header_fault(window@, cursor) is None
                    && header.decoded_from(window@, cursor as int) && end == cursor + 68,
                Err(e) => radar_header_fault(window@, cursor) == Some(e),
            },
    {
        if !has_bytes(window, cursor, DIGITAL_RADAR_DATA_GENERIC_FORMAT_HEADER_SIZE) {
            return Err(
                DecodeError::Truncated {
                    offset: cursor,
                    needed: DIGITAL_RADAR_DATA_GENERIC_FORMAT_HEADER_SIZE,
                },
            );
        }
        let radar_identifier = match read_utf8(window, cursor, 4) {
            Ok(s) => s,
            Err(e) => {
                return Err(e);
            },
        };
        let header = DigitalRadarDataGenericFormatHeader {
            radar_identifier,
            collection_time: i32_in(window, cursor + 4),
            modified_julian_date: i16_in(window, cursor + 8),
            azimuth_number: i16_in(window, cursor + 10),
            azimuth_angle_bits: u32_in(window, cursor + 12),
            compression_indicator: window[cursor + 16],
            spare_byte: window[cursor + 17],
            radial_length: i16_in(window, cursor + 18),
            az_res_spacing: window[cursor + 20],
            radial_status: window[cursor + 21],
            elevation_number: i8_in(window, cursor + 22),
            cut_sector_number: i8_in(window, cursor + 23),
            elevation_angle_bits: u32_in(window, cursor + 24),
            radial_spot_blanking_status: window[cursor + 28],
            azimuth_indexing_mode: window[cursor + 29],
            data_block_count: i16_in(window, cursor + 30),
            const_vol_data_block_pointer: i32_in(window, cursor + 32),
            const_elevation_data_block_pointer: i32_in(window, cursor + 36),
            const_radial_data_block_pointer: i32_in(window, cursor + 40),
            reflectivity_block_pointer: i32_in(window, cursor + 44),
            velocity_block_pointer: i32_in(window, cursor + 48),
            sw_block_pointer: i32_in(window, cursor + 52),
            diff_ref_block_pointer: i32_in(window, cursor + 56),
            phi_block_pointer: i32_in(window, cursor + 60),
            rho_block_pointer: i32_in(window, cursor + 64),
        };
        Ok((header, cursor + DIGITAL_RADAR_DATA_GENERIC_FORMAT_HEADER_SIZE))
    }
}

} // verus!
