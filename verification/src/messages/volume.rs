//! The 24-byte header that opens an archive file.

use vstd::prelude::*;
use crate::error::DecodeError;
use crate::wire::{has_bytes, holds, i32_at, i32_in, read_text, text_fault, text_of, truncated};

verus! {

/// The number of bytes that the volume header takes at the start of a file.
pub const VOLUME_HEADER_SIZE: usize = 24;

/// What the volume header says of the file: its tape name, when the volume
/// was taken, and the station that took it.
///
/// Both texts are kept as they stand in the file, padding included: the name
/// has 12 characters and the station identifier 4.
#[derive(Debug, Clone, PartialEq, Eq)]
pub struct VolumeHeader {
    pub volumename: String,
    /// Days since 1 January 1970, counting that day as 1.
    pub date: i32,
    /// Milliseconds since midnight.
    pub time: i32,
    pub icao: String,
}

/// Why no volume header can be decoded from `w` at `at`, if so: the window
/// ends before the 24th byte, or the name is not text, or the station
/// identifier is not text, in that order.
pub open spec fn volume_header_fault(w: Seq<u8>, at: usize) -> Option<DecodeError> {
    if !holds(w, at as int, 24) {
        Some(truncated(at, VOLUME_HEADER_SIZE))
    } else if text_fault(w, at, 12) is Some {
        text_fault(w, at, 12)
    } else {
        text_fault(w, (at + 20) as usize, 4)
    }
}

impl VolumeHeader {
    /// Whether `self` holds, field by field, what the 24 bytes of `w` from
    /// `at` on say.
    pub open spec fn decoded_from(&self, w: Seq<u8>, at: int) -> bool {
        &&& self.volumename@ == text_of(w.subrange(at, at + 12))
        &&& self.date == i32_at(w, at + 12)
        &&& self.time == i32_at(w, at + 16)
        &&& self.icao@ == text_of(w.subrange(at + 20, at + 24))
    }

    /// Decodes the volume header that starts at `cursor` in `window` and
    /// returns it with the cursor moved past its 24 bytes.
    ///
    /// Fails with `Truncated` when fewer than 24 bytes follow the cursor, and
    /// with `MalformedHeader` at the offset of the name or of the station
    /// identifier when that field holds a byte that is not ASCII.
    pub fn decode(window: &[u8], cursor: usize) -> (r: Result<(Self, usize), DecodeError>)
        ensures
            match r {
                Ok((header, end)) => volume_header_fault(window@, cursor) is None
                    && header.decoded_from(window@, cursor as int) && end == cursor + 24,
                Err(e) => volume_header_fault(window@, cursor) == Some(e),
            },
    {
        if !has_bytes(window, cursor, VOLUME_HEADER_SIZE) {
            return Err(DecodeError::Truncated { offset: cursor, needed: VOLUME_HEADER_SIZE });
        }
        let volumename = match read_text(window, cursor, 12) {
            Ok(s) => s,
            Err(e) => {
                return Err(e);
            },
        };
        let date: i32 = i32_in(window, cursor + 12);
        let time: i32 = i32_in(window, cursor + 16);
        let icao = match read_text(window, cursor + 20, 4) {
            Ok(s) => s,
            Err(e) => {
                return Err(e);
            },
        };
        Ok((VolumeHeader { volumename, date, time, icao }, cursor + VOLUME_HEADER_SIZE))
    }
}

} // verus!
