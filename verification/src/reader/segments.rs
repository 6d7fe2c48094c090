//! The walk over the segments of a file: from control word to control word,
//! with and without decompressing what lies between them.

use vstd::prelude::*;
use crate::error::DecodeError;
use crate::messages::volume::VOLUME_HEADER_SIZE;
use crate::wire::i32_at;
use crate::reader::inflate::{
    bz_stream, segment_window, settle_segment, settled, BoundedSegmentReader, Segment,
    SegmentView,
};

verus! {

/// What the segment whose control word stands at `offset` gives, as segment
/// `ordinal` of `file`: nothing at or past the end of the file, else the
/// segment, or the fault that ends the walk.
pub open spec fn segment_at(file: Seq<u8>, offset: int, ordinal: int, strict: bool) -> Result<
    Option<SegmentView>,
    DecodeError,
> {
    if offset >= file.len() {
        Ok(None)
    } else {
        match segment_window(file, offset) {
            Err(e) => Err(e),
            Ok((start, len)) => match settled(
                ordinal,
                offset,
                len,
                strict,
                bz_stream(file.subrange(start, start + len)),
            ) {
                Err(e) => Err(e),
                Ok(segment) => Ok(Some(segment)),
            },
        }
    }
}

/// The windows of the compressed segments of `file` from `offset` on, each as
/// start and length, where every control word on the way is sound and the
/// file holds every byte that it declares.
pub open spec fn segment_layout(file: Seq<u8>, offset: int) -> Result<
    Seq<(int, int)>,
    DecodeError,
>
    decreases file.len() - offset,
{
    if offset >= file.len() {
        Ok(Seq::empty())
    } else {
        match segment_window(file, offset) {
            Err(e) => Err(e),
            Ok((start, len)) => match segment_layout(file, start + len) {
                Err(e) => Err(e),
                Ok(rest) => Ok(seq![(start, len)] + rest),
            },
        }
    }
}

/// The decompressed segments of `file` from `offset` on, the first of them
/// counted as segment `ordinal`, or the first fault on the way.
pub open spec fn segments_from(file: Seq<u8>, offset: int, ordinal: int, strict: bool) -> Result<
    Seq<Seq<u8>>,
    DecodeError,
>
    decreases file.len() - offset,
{
    match segment_at(file, offset, ordinal, strict) {
        Err(e) => Err(e),
        Ok(None) => Ok(Seq::empty()),
        Ok(Some(segment)) => match segments_from(
            file,
            offset + 4 + segment.compressed_len,
            ordinal + 1,
            strict,
        ) {
            Err(e) => Err(e),
            Ok(rest) => Ok(seq![segment.data] + rest),
        },
    }
}

/// The bytes that the segments of a layout take in the file: for each, its
/// control word and its compressed bytes.
pub open spec fn stored_len(layout: Seq<(int, int)>) -> int
    decreases layout.len(),
{
    if layout.len() == 0 {
        0
    } else {
        4 + layout[0].1 + stored_len(layout.subrange(1, layout.len() as int))
    }
}

/// The buffers of `segments`, in order.
pub open spec fn buffers_of(segments: Seq<Vec<u8>>) -> Seq<Seq<u8>> {
    Seq::new(segments.len(), |i: int| segments[i]@)
}

/// The windows of `readers`, each as start and length.
pub open spec fn windows_of(readers: Seq<BoundedSegmentReader<'_>>) -> Seq<(int, int)> {
    Seq::new(readers.len(), |i: int| (readers[i].start_of(), readers[i].bytes_of().len() as int))
}

/// The segments of a file account for every byte of it: where the walk from
/// `offset` reaches the end without a fault, the control words and the
/// compressed bytes of the segments add up to what the file holds from
/// `offset` on.
pub proof fn layout_accounts_for_file(file: Seq<u8>, offset: int)
    requires
        0 <= offset <= file.len(),
        segment_layout(file, offset) is Ok,
    ensures
        offset + stored_len(segment_layout(file, offset)->Ok_0) == file.len(),
    decreases file.len() - offset,
{
    if offset < file.len() {
        let (start, len) = segment_window(file, offset)->Ok_0;
        let next = start + len;
        let rest = segment_layout(file, next)->Ok_0;
        layout_accounts_for_file(file, next);
        let layout = seq![(start, len)] + rest;
        assert(layout.subrange(1, layout.len() as int) =~= rest);
    }
}

/// The offset accounting of an archive: where the walk over the segments of
/// a file reaches the end without a fault, the 24 bytes of the volume
/// header, plus 4 bytes and the value of its control word for each segment,
/// are the length of the file.
pub proof fn control_words_account_for_file(file: Seq<u8>)
    requires
        file.len() >= 24,
        segment_layout(file, 24) is Ok,
    ensures
        24 + stored_len(segment_layout(file, 24)->Ok_0) == file.len(),
        forall|i: int|
            0 <= i < segment_layout(file, 24)->Ok_0.len() ==> (
            #[trigger] segment_layout(file, 24)->Ok_0[i]).1 == i32_at(
                file,
                segment_layout(file, 24)->Ok_0[i].0 - 4,
            ),
{
    layout_accounts_for_file(file, 24);
    assert forall|i: int| 0 <= i < segment_layout(file, 24)->Ok_0.len() implies (
    #[trigger] segment_layout(file, 24)->Ok_0[i]).1 == i32_at(
        file,
        segment_layout(file, 24)->Ok_0[i].0 - 4,
    ) by {
        layout_is_contiguous(file, 24, i);
    }
}

/// A walk that decompresses follows the same control words as one that does
/// not: where every segment from `offset` on can be decompressed, the layout
/// from `offset` on is sound and has a window for each of the segments, so
/// that the control words account for the file here too.
pub proof fn decompressed_walk_follows_layout(
    file: Seq<u8>,
    offset: int,
    ordinal: int,
    strict: bool,
)
    requires
        0 <= offset <= file.len(),
        segments_from(file, offset, ordinal, strict) is Ok,
    ensures
        segment_layout(file, offset) is Ok,
        segment_layout(file, offset)->Ok_0.len() == segments_from(
            file,
            offset,
            ordinal,
            strict,
        )->Ok_0.len(),
        offset + stored_len(segment_layout(file, offset)->Ok_0) == file.len(),
    decreases file.len() - offset,
{
    if offset < file.len() {
        let (start, len) = segment_window(file, offset)->Ok_0;
        decompressed_walk_follows_layout(file, start + len, ordinal + 1, strict);
    }
    layout_accounts_for_file(file, offset);
}

/// In strict mode every segment that is handed out has consumed exactly the
/// compressed bytes that its control word declared.
pub proof fn strict_segment_consumes_declared(file: Seq<u8>, offset: int, ordinal: int)
    ensures
        segment_at(file, offset, ordinal, true) matches Ok(Some(segment)) ==> segment.consumed
            == segment.compressed_len && segment.compressed_len == i32_at(
            file,
            offset,
        ),
{
}

/// Each window of a layout starts 4 bytes after the end of the one before
/// it, the first of them 4 bytes after `offset`, and all lie in the file.
pub proof fn layout_is_contiguous(file: Seq<u8>, offset: int, i: int)
    requires
        segment_layout(file, offset) is Ok,
        0 <= i < segment_layout(file, offset)->Ok_0.len(),
    ensures
        ({
            let layout = segment_layout(file, offset)->Ok_0;
            &&& layout[i].0 + layout[i].1 <= file.len()
            &&& layout[i].1 == i32_at(file, layout[i].0 - 4)
            &&& i == 0 ==> layout[i].0 == offset + 4
            &&& i > 0 ==> layout[i].0 == layout[i - 1].0 + layout[i - 1].1 + 4
        }),
    decreases i,
{
    let (start, len) = segment_window(file, offset)->Ok_0;
    let next = start + len;
    let rest = segment_layout(file, next)->Ok_0;
    let layout = seq![(start, len)] + rest;
    if i > 0 {
        layout_is_contiguous(file, next, i - 1);
        assert(layout[i] == rest[i - 1]);
        if i > 1 {
            assert(layout[i - 1] == rest[i - 2]);
        }
    }
}

/// Walks the control words of `file` from the end of the volume header and
/// returns, for each segment, the bounded view of its compressed bytes.
/// Nothing is decompressed.
///
/// Fails with `Truncated` when the file ends inside a control word or before
/// the last byte that a control word declares, and with `InvalidControlWord`
/// at the first negative control word. A file that is no longer than the
/// volume header has no segments.
pub fn segment_message<'a>(file: &'a [u8]) -> (r: Result<Vec<BoundedSegmentReader<'a>>, DecodeError>)
    ensures
        match r {
            Ok(readers) => {
                &&& segment_layout(file@, 24) == Ok::<Seq<(int, int)>, DecodeError>(
                    windows_of(readers@),
                )
                &&& forall|i: int|
                    0 <= i < readers.len() ==> (#[trigger] readers[i]).bytes_of()
                        == file@.subrange(
                        readers[i].start_of(),
                        readers[i].start_of() + readers[i].bytes_of().len(),
                    )
            },
            Err(e) => segment_layout(file@, 24) == Err::<Seq<(int, int)>, DecodeError>(e),
        },
        r is Ok && file.len() >= 24 ==> 24 + stored_len(windows_of(r->Ok_0@)) == file.len(),
{
    let mut readers: Vec<BoundedSegmentReader<'a>> = Vec::new();
    let mut offset: usize = VOLUME_HEADER_SIZE;
    while offset < file.len()
        invariant
            segment_layout(file@, 24) == (match segment_layout(file@, offset as int) {
                Ok(rest) => Ok(windows_of(readers@) + rest),
                Err(e) => Err(e),
            }),
            forall|i: int|
                0 <= i < readers.len() ==> (#[trigger] readers[i]).bytes_of() == file@.subrange(
                    readers[i].start_of(),
                    readers[i].start_of() + readers[i].bytes_of().len(),
                ),
        decreases file.len() - offset,
    {
        let reader = match BoundedSegmentReader::open(file, offset) {
            Ok(reader) => reader,
            Err(e) => {
                return Err(e);
            },
        };
        let ghost before = windows_of(readers@);
        let next: usize = reader.start() + reader.limit();
        readers.push(reader);
        proof {
            let window = (reader.start_of(), reader.bytes_of().len() as int);
            assert(windows_of(readers@) =~= before.push(window));
            match segment_layout(file@, next as int) {
                Ok(rest) => {
                    assert(before + (seq![window] + rest) =~= before.push(window) + rest);
                },
                Err(_) => {},
            }
        }
        offset = next;
    }
    proof {
        assert(windows_of(readers@) + Seq::<(int, int)>::empty() =~= windows_of(readers@));
        if file.len() >= 24 {
            layout_accounts_for_file(file@, 24);
        }
    }
    Ok(readers)
}

/// The sequential walk over the segments of one file.
///
/// The stream owns the position: each call of `next_segment` reads the
/// control word at the position, decompresses the bytes that it bounds, and
/// moves the position to the next control word. The first fault ends the
/// walk, since every later position depends on the ones before it.
pub struct SegmentStream<'a> {
    file: &'a [u8],
    offset: usize,
    ordinal: usize,
    strict: bool,
}

impl<'a> SegmentStream<'a> {
    #[verifier::type_invariant]
    spec fn inv(self) -> bool {
        &&& self.offset == VOLUME_HEADER_SIZE || self.offset <= self.file@.len()
        &&& 24 + 4 * self.ordinal <= self.offset
    }

    /// The bytes of the file that the stream walks.
    pub closed spec fn file_of(&self) -> Seq<u8> {
        self.file@
    }

    /// The file offset of the next control word.
    pub closed spec fn offset_of(&self) -> int {
        self.offset as int
    }

    /// The number of segments that the stream has handed out.
    pub closed spec fn ordinal_of(&self) -> int {
        self.ordinal as int
    }

    /// Whether a segment whose consumed length differs from its declared
    /// length is a fault.
    pub closed spec fn strict_of(&self) -> bool {
        self.strict
    }

    /// A stream over `file`, positioned at the first control word, which
    /// follows the volume header.
    pub fn new(file: &'a [u8], strict: bool) -> (stream: Self)
        ensures
            stream.file_of() == file@,
            stream.offset_of() == 24,
            stream.ordinal_of() == 0,
            stream.strict_of() == strict,
    {
        SegmentStream { file, offset: VOLUME_HEADER_SIZE, ordinal: 0, strict }
    }

    /// The file offset of the next control word.
    pub fn offset(&self) -> (offset: usize)
        ensures
            offset == self.offset_of(),
    {
        self.offset
    }

    /// The number of segments that the stream has handed out.
    pub fn ordinal(&self) -> (ordinal: usize)
        ensures
            ordinal == self.ordinal_of(),
    {
        self.ordinal
    }

    /// Hands out the next segment, or `None` once the position has reached
    /// the end of the file.
    ///
    /// Fails with `Truncated` when the file ends inside the control word or
    /// before the last declared byte, with `InvalidControlWord` when the
    /// control word is negative, with `CorruptSegment` when the decoder
    /// rejects the bytes, and in strict mode with `SegmentSizeMismatch`
    /// when the decoder consumed another number of bytes than declared.
    /// After a segment the position has moved by 4 and the declared length;
    /// after the end or a fault the stream is as it was. At the end the
    /// position is the length of the file, unless the file is shorter than
    /// its volume header.
    pub fn next_segment(&mut self) -> (r: Result<Option<Segment>, DecodeError>)
        ensures
            final(self).file_of() == old(self).file_of(),
            final(self).strict_of() == old(self).strict_of(),
            match r {
                Ok(Some(segment)) => {
                    &&& segment_at(
                        old(self).file_of(),
                        old(self).offset_of(),
                        old(self).ordinal_of(),
                        old(self).strict_of(),
                    ) == Ok::<Option<SegmentView>, DecodeError>(Some(segment@))
                    &&& final(self).offset_of() == old(self).offset_of() + 4
                        + segment.compressed_len
                    &&& final(self).offset_of() <= old(self).file_of().len()
                    &&& final(self).ordinal_of() == old(self).ordinal_of() + 1
                    &&& old(self).strict_of() ==> segment.consumed == segment.compressed_len
                },
                Ok(None) => {
                    &&& old(self).offset_of() >= old(self).file_of().len()
                    &&& old(self).file_of().len() >= 24 ==> old(self).offset_of() == old(
                        self,
                    ).file_of().len()
                    &&& final(self).offset_of() == old(self).offset_of()
                    &&& final(self).ordinal_of() == old(self).ordinal_of()
                },
                Err(e) => {
                    &&& segment_at(
                        old(self).file_of(),
                        old(self).offset_of(),
                        old(self).ordinal_of(),
                        old(self).strict_of(),
                    ) == Err::<Option<SegmentView>, DecodeError>(e)
                    &&& final(self).offset_of() == old(self).offset_of()
                    &&& final(self).ordinal_of() == old(self).ordinal_of()
                },
            },
    {
        proof {
            use_type_invariant(&*self);
        }
        if self.offset >= self.file.len() {
            return Ok(None);
        }
        let reader = match BoundedSegmentReader::open(self.file, self.offset) {
            Ok(reader) => reader,
            Err(e) => {
                return Err(e);
            },
        };
        let declared: usize = reader.limit();
        let outcome = reader.decompress();
        let segment = match settle_segment(
            self.ordinal,
            self.offset,
            declared,
            self.strict,
            outcome,
        ) {
            Ok(segment) => segment,
            Err(e) => {
                return Err(e);
            },
        };
        self.offset = reader.start() + declared;
        self.ordinal = self.ordinal + 1;
        Ok(Some(segment))
    }
}

/// The buffers of `segments`, in order.
pub open spec fn data_of(segments: Seq<Segment>) -> Seq<Seq<u8>> {
    Seq::new(segments.len(), |i: int| segments[i].data@)
}

/// Whether `segments` are the segments of `file`, one after the other from
/// the end of the volume header: each is what the walk gives at its offset
/// and under its ordinal, the first stands at offset 24, and each of the
/// others follows the one before it by 4 bytes and that one's declared
/// length.
pub open spec fn is_walk_of(segments: Seq<Segment>, file: Seq<u8>, strict: bool) -> bool {
    &&& forall|i: int|
        0 <= i < segments.len() ==> segment_at(file, (#[trigger] segments[i]).offset as int, i, strict)
            == Ok::<Option<SegmentView>, DecodeError>(Some(segments[i]@))
    &&& forall|i: int|
        0 <= i < segments.len() ==> (#[trigger] segments[i]).offset == (if i == 0 {
            24
        } else {
            segments[i - 1].offset + 4 + segments[i - 1].compressed_len
        })
}

/// Decompresses every segment of `file`, in order, and returns each with
/// its place in the file, the length that its control word declared and the
/// number of bytes that the decoder consumed.
///
/// In strict mode a segment whose consumed length differs from its declared
/// length ends the walk with `SegmentSizeMismatch`, so that every segment
/// that comes back has consumed what was declared. Outside strict mode such
/// a segment is handed out, and `Segment::size_mismatch` tells of it.
///
/// Fails with the first fault of the walk, as `SegmentStream::next_segment`
/// reports it.
pub fn decompress_nexrad_segments(file: &[u8], strict: bool) -> (r: Result<
    Vec<Segment>,
    DecodeError,
>)
    ensures
        match r {
            Ok(segments) => {
                &&& segments_from(file@, 24, 0, strict) == Ok::<Seq<Seq<u8>>, DecodeError>(
                    data_of(segments@),
                )
                &&& is_walk_of(segments@, file@, strict)
                &&& forall|i: int|
                    0 <= i < segments.len() ==> (#[trigger] segments[i]).ordinal == i
                        && segments[i].compressed_len == i32_at(file@, segments[i].offset as int)
                &&& strict ==> forall|i: int|
                    0 <= i < segments.len() ==> (#[trigger] segments[i]).consumed
                        == segments[i].compressed_len
            },
            Err(e) => segments_from(file@, 24, 0, strict) == Err::<Seq<Seq<u8>>, DecodeError>(e),
        },
        file.len() >= 24 ==> (r matches Ok(segments) ==> {
            &&& segment_layout(file@, 24) matches Ok(layout)
            &&& layout.len() == segments.len()
            &&& 24 + stored_len(layout) == file.len()
        }),
{
    let mut stream = SegmentStream::new(file, strict);
    let mut segments: Vec<Segment> = Vec::new();
    assert(data_of(segments@) =~= Seq::<Seq<u8>>::empty());
    loop
        invariant
            stream.file_of() == file@,
            stream.strict_of() == strict,
            segments.len() == stream.ordinal_of(),
            stream.offset_of() == (if segments.len() == 0 {
                24
            } else {
                segments[segments.len() - 1].offset + 4 + segments[segments.len()
                    - 1].compressed_len
            }),
            is_walk_of(segments@, file@, strict),
            forall|i: int|
                0 <= i < segments.len() ==> (#[trigger] segments[i]).ordinal == i
                    && segments[i].compressed_len == i32_at(file@, segments[i].offset as int),
            strict ==> forall|i: int|
                0 <= i < segments.len() ==> (#[trigger] segments[i]).consumed
                    == segments[i].compressed_len,
            segments_from(file@, 24, 0, strict) == (match segments_from(
                file@,
                stream.offset_of(),
                stream.ordinal_of(),
                strict,
            ) {
                Ok(rest) => Ok(data_of(segments@) + rest),
                Err(e) => Err(e),
            }),
        decreases file@.len() - stream.offset_of(),
    {
        let ghost before = data_of(segments@);
        let ghost earlier = segments@;
        match stream.next_segment() {
            Err(e) => {
                return Err(e);
            },
            Ok(None) => {
                proof {
                    assert(before + Seq::<Seq<u8>>::empty() =~= before);
                    if file.len() >= 24 {
                        decompressed_walk_follows_layout(file@, 24, 0, strict);
                    }
                }
                return Ok(segments);
            },
            Ok(Some(segment)) => {
                let ghost data = segment.data@;
                segments.push(segment);
                proof {
                    assert(segments@ == earlier.push(segment));
                    assert(data_of(segments@) =~= before.push(data));
                    match segments_from(file@, stream.offset_of(), stream.ordinal_of(), strict) {
                        Ok(rest) => {
                            assert(before + (seq![data] + rest) =~= before.push(data) + rest);
                        },
                        Err(_) => {},
                    }
                    assert forall|i: int| 0 <= i < segments.len() implies segment_at(
                        file@,
                        (#[trigger] segments[i]).offset as int,
                        i,
                        strict,
                    ) == Ok::<Option<SegmentView>, DecodeError>(Some(segments[i]@)) by {
                        if i < earlier.len() {
                            assert(segments[i] == earlier[i]);
                        }
                    }
                    assert forall|i: int| 0 <= i < segments.len() implies (
                    #[trigger] segments[i]).offset == (if i == 0 {
                        24
                    } else {
                        segments[i - 1].offset + 4 + segments[i - 1].compressed_len
                    }) by {
                        if i < earlier.len() {
                            assert(segments[i] == earlier[i]);
                            if i > 0 {
                                assert(segments[i - 1] == earlier[i - 1]);
                            }
                        } else if i > 0 {
                            assert(segments[i - 1] == earlier[i - 1]);
                        }
                    }
                }
            },
        }
    }
}

/// Decompresses every segment of `file`, in order, and returns their
/// buffers. A segment whose consumed length differs from its declared
/// length is taken as it is, and nothing tells of it: a caller that is to
/// warn of such a segment, or to fail on it, walks with
/// `decompress_nexrad_segments`.
///
/// Fails with the first fault of the walk: `Truncated`, `InvalidControlWord`
/// or `CorruptSegment`, as `SegmentStream::next_segment` reports them. Where
/// the walk succeeds on a file that has its volume header, the control
/// words account for the file: 24, plus 4 and the declared length for each
/// segment, is the length of the file.
pub fn decompress_nexrad_file(file: &[u8]) -> (r: Result<Vec<Vec<u8>>, DecodeError>)
    ensures
        match r {
            Ok(segments) => segments_from(file@, 24, 0, false) == Ok::<Seq<Seq<u8>>, DecodeError>(
                buffers_of(segments@),
            ),
            Err(e) => segments_from(file@, 24, 0, false) == Err::<Seq<Seq<u8>>, DecodeError>(e),
        },
        file.len() >= 24 ==> (r matches Ok(segments) ==> {
            &&& segment_layout(file@, 24) matches Ok(layout)
            &&& layout.len() == segments.len()
            &&& 24 + stored_len(layout) == file.len()
        }),
{
    let mut stream = SegmentStream::new(file, false);
    let mut segments: Vec<Vec<u8>> = Vec::new();
    loop
        invariant
            stream.file_of() == file@,
            stream.strict_of() == false,
            segments_from(file@, 24, 0, false) == (match segments_from(
                file@,
                stream.offset_of(),
                stream.ordinal_of(),
                false,
            ) {
                Ok(rest) => Ok(buffers_of(segments@) + rest),
                Err(e) => Err(e),
            }),
        decreases file@.len() - stream.offset_of(),
    {
        let ghost before = buffers_of(segments@);
        let ghost offset = stream.offset_of();
        let ghost ordinal = stream.ordinal_of();
        match stream.next_segment() {
            Err(e) => {
                return Err(e);
            },
            Ok(None) => {
                proof {
                    assert(before + Seq::<Seq<u8>>::empty() =~= before);
                    if file.len() >= 24 {
                        decompressed_walk_follows_layout(file@, 24, 0, false);
                    }
                }
                return Ok(segments);
            },
            Ok(Some(segment)) => {
                let ghost data = segment.data@;
                segments.push(segment.data);
                proof {
                    assert(buffers_of(segments@) =~= before.push(data));
                    match segments_from(file@, stream.offset_of(), stream.ordinal_of(), false) {
                        Ok(rest) => {
                            assert(before + (seq![data] + rest) =~= before.push(data) + rest);
                        },
                        Err(_) => {},
                    }
                }
            },
        }
    }
}

} // verus!
