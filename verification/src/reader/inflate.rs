//! One compressed segment: the bounded window that its control word marks
//! out, the bzip2 decoder that is run over that window, and the verdict on
//! what the decoder gave back.

use vstd::prelude::*;
use crate::error::DecodeError;
use crate::wire::{has_bytes, holds, i32_at, read_i32, truncated};

verus! {

/// The number of bytes of the control word that precedes each segment.
pub const CONTROL_WORD_SIZE: usize = 4;

/// What the bzip2 decoder makes of `input`, read as one stream from its first
/// byte: the bytes that the stream inflates to and the number of bytes of
/// `input` that the decoder consumed on the way, or nothing where it rejects
/// the input.
pub uninterp spec fn bz_stream(input: Seq<u8>) -> Option<(Seq<u8>, u64)>;

/// The mathematical content of a decoder outcome.
pub open spec fn outcome_view(outcome: Option<(Vec<u8>, u64)>) -> Option<(Seq<u8>, u64)> {
    match outcome {
        Some((data, consumed)) => Some((data@, consumed)),
        None => None,
    }
}

/// Runs `bzip2::read::BzDecoder` over `input` until it reports the end of
/// its output, and asks it for `total_in`.
///
/// The decoder sees `input` and nothing else, stops at the end of the first
/// stream and leaves whatever follows it unread. Any error that it raises,
/// bad data or an input that ends inside the stream, comes back as `None`.
/// The contract gives the outcome its name, `bz_stream`, and claims nothing
/// else of it.
#[verifier::external_body]
fn run_decoder(input: &[u8]) -> (outcome: Option<(Vec<u8>, u64)>)
    ensures
        outcome_view(outcome) == bz_stream(input@),
{
    let mut decoder = bzip2::read::BzDecoder::new(input);
    let mut data: Vec<u8> = Vec::new();
    match std::io::Read::read_to_end(&mut decoder, &mut data) {
        Ok(_) => Some((data, decoder.total_in())),
        Err(_) => None,
    }
}

/// One decompressed segment and where it came from.
#[derive(Debug, Clone, PartialEq, Eq)]
pub struct Segment {
    /// The position of the segment among the segments of its file, from 0.
    pub ordinal: usize,
    /// The file offset of the segment's control word.
    pub offset: usize,
    /// The number of compressed bytes that the control word declared.
    pub compressed_len: usize,
    /// The number of compressed bytes that the decoder consumed.
    pub consumed: u64,
    /// The decompressed bytes.
    pub data: Vec<u8>,
}

/// The mathematical content of a `Segment`.
pub struct SegmentView {
    pub ordinal: int,
    pub offset: int,
    pub compressed_len: int,
    pub consumed: u64,
    pub data: Seq<u8>,
}

impl View for Segment {
    type V = SegmentView;

    open spec fn view(&self) -> SegmentView {
        SegmentView {
            ordinal: self.ordinal as int,
            offset: self.offset as int,
            compressed_len: self.compressed_len as int,
            consumed: self.consumed,
            data: self.data@,
        }
    }
}

impl Segment {
    /// Whether the decoder consumed another number of bytes than the control
    /// word declared. Outside strict mode such a segment is still handed
    /// out, and this is how the caller learns of it.
    pub fn size_mismatch(&self) -> (b: bool)
        ensures
            b == (self.consumed != self.compressed_len),
    {
        self.consumed != self.compressed_len as u64
    }
}

/// The verdict on a decoder outcome for segment `ordinal`, whose control word
/// at `offset` declared `declared` bytes: a rejected input is a corrupt
/// segment; in strict mode a consumed count other than `declared` is a size
/// mismatch; anything else is the segment.
pub open spec fn settled(
    ordinal: int,
    offset: int,
    declared: int,
    strict: bool,
    outcome: Option<(Seq<u8>, u64)>,
) -> Result<SegmentView, DecodeError> {
    match outcome {
        None => Err(DecodeError::CorruptSegment { segment: ordinal as usize }),
        Some((data, consumed)) => if strict && consumed != declared {
            Err(
                DecodeError::SegmentSizeMismatch {
                    segment: ordinal as usize,
                    declared: declared as u64,
                    consumed,
                },
            )
        } else {
            Ok(SegmentView { ordinal, offset, compressed_len: declared, consumed, data })
        },
    }
}

/// Judges what the decoder gave back for segment `ordinal`, whose control
/// word at `offset` declared `declared` compressed bytes.
///
/// Fails with `CorruptSegment` when the decoder rejected the input, and, in
/// strict mode only, with `SegmentSizeMismatch` when it consumed another
/// number of bytes than was declared. A segment that is returned in strict
/// mode has consumed exactly what was declared.
pub fn settle_segment(
    ordinal: usize,
    offset: usize,
    declared: usize,
    strict: bool,
    outcome: Option<(Vec<u8>, u64)>,
) -> (r: Result<Segment, DecodeError>)
    ensures
        match r {
            Ok(segment) => settled(
                ordinal as int,
                offset as int,
                declared as int,
                strict,
                outcome_view(outcome),
            ) == Ok::<SegmentView, DecodeError>(segment@),
            Err(e) => settled(
                ordinal as int,
                offset as int,
                declared as int,
                strict,
                outcome_view(outcome),
            ) == Err::<SegmentView, DecodeError>(e),
        },
        r matches Ok(segment) ==> (strict ==> segment.consumed == segment.compressed_len),
{
    match outcome {
        None => Err(DecodeError::CorruptSegment { segment: ordinal }),
        Some((data, consumed)) => {
            if strict && consumed != declared as u64 {
                Err(
                    DecodeError::SegmentSizeMismatch {
                        segment: ordinal,
                        declared: declared as u64,
                        consumed,
                    },
                )
            } else {
                Ok(Segment { ordinal, offset, compressed_len: declared, consumed, data })
            }
        },
    }
}

/// Where the compressed bytes of the segment whose control word stands at
/// `offset` lie in `file`, as start and length, or why they cannot be had:
/// the file ends inside the control word, the control word is negative, or
/// the file ends before the last declared byte.
pub open spec fn segment_window(file: Seq<u8>, offset: int) -> Result<(int, int), DecodeError> {
    if !holds(file, offset, 4) {
        Err(truncated(offset as usize, CONTROL_WORD_SIZE))
    } else {
        let word = i32_at(file, offset);
        if word < 0 {
            Err(DecodeError::InvalidControlWord { offset: offset as usize, word })
        } else if !holds(file, offset + 4, word as int) {
            Err(truncated((offset + 4) as usize, word as usize))
        } else {
            Ok((offset + 4, word as int))
        }
    }
}

/// A view of a file that is limited to the compressed bytes of one segment.
///
/// The decoder is given this view and never the file, so that it cannot read
/// past the segment's declared length into the control word of the next one.
#[derive(Debug, Clone, Copy)]
pub struct BoundedSegmentReader<'a> {
    start: usize,
    window: &'a [u8],
}

impl<'a> BoundedSegmentReader<'a> {
    /// The file offset of the first byte of the view.
    pub closed spec fn start_of(&self) -> int {
        self.start as int
    }

    /// The bytes of the view.
    pub closed spec fn bytes_of(&self) -> Seq<u8> {
        self.window@
    }

    /// Whether the view is the `len` bytes of `file` from `start` on.
    pub open spec fn bounds(&self, file: Seq<u8>, start: int, len: int) -> bool {
        &&& holds(file, start, len)
        &&& self.start_of() == start
        &&& self.bytes_of() == file.subrange(start, start + len)
    }

    /// Reads the control word at `offset` in `file` and opens the view that
    /// it declares: as many bytes after the control word as the word says.
    ///
    /// Fails with `Truncated` when fewer than 4 bytes follow `offset` or
    /// fewer bytes than declared follow the control word, and with
    /// `InvalidControlWord` when the word is negative.
    pub fn open(file: &'a [u8], offset: usize) -> (r: Result<Self, DecodeError>)
        ensures
            match r {
                Ok(reader) => segment_window(file@, offset as int) matches Ok((start, len))
                    && reader.bounds(file@, start, len),
                Err(e) => segment_window(file@, offset as int) == Err::<(int, int), DecodeError>(
                    e,
                ),
            },
    {
        let word: i32 = match read_i32(file, offset) {
            Ok(word) => word,
            Err(e) => {
                return Err(e);
            },
        };
        if word < 0 {
            return Err(DecodeError::InvalidControlWord { offset, word });
        }
        let start: usize = offset + CONTROL_WORD_SIZE;
        let len: usize = word as usize;
        if !has_bytes(file, start, len) {
            return Err(DecodeError::Truncated { offset: start, needed: len });
        }
        let window = vstd::slice::slice_subrange(file, start, start + len);
        Ok(BoundedSegmentReader { start, window })
    }

    /// The file offset of the first byte of the view.
    pub fn start(&self) -> (start: usize)
        ensures
            start == self.start_of(),
    {
        self.start
    }

    /// The number of bytes in the view: what the control word declared.
    pub fn limit(&self) -> (limit: usize)
        ensures
            limit == self.bytes_of().len(),
    {
        self.window.len()
    }

    /// The bytes of the view.
    pub fn bytes(&self) -> (bytes: &'a [u8])
        ensures
            bytes@ == self.bytes_of(),
    {
        self.window
    }

    /// Runs the bzip2 decoder over the view and returns the decompressed
    /// bytes with the number of compressed bytes that the decoder consumed,
    /// or `None` where the decoder rejects the bytes.
    pub fn decompress(&self) -> (outcome: Option<(Vec<u8>, u64)>)
        ensures
            outcome_view(outcome) == bz_stream(self.bytes_of()),
    {
        run_decoder(self.window)
    }
}

} // verus!
