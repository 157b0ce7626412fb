use vstd::prelude::*;

use crate::id3v2::{has_id3_identifier, tag_of, ID3v2, ID3v2Model};
use crate::bytes::{be_u32, word_at};
use crate::mpegframeheader::framebitrate::bitrate_index;
use crate::mpegframeheader::mpegframesync::has_sync;
use crate::mpegframeheader::samplerate::sample_rate_index;
use crate::mpegframeheader::{
    header_frame_length,
    lemma_frame_length_bounds,
    lemma_table_header_length,
    MPEGFrameHeader,
};
use crate::mpegparserror::MPEGParseError;

verus! {

/// One MPEG audio frame: its decoded header and the bytes that follow the header up to
/// the end of the frame (the checksum, if any, and the audio data).
pub struct MP3Frame {
    /// Where the frame starts in the data it was parsed from.
    pub offset: usize,
    pub header: MPEGFrameHeader,
    pub data: Vec<u8>,
}

/// The mathematical value of an `MP3Frame`.
pub struct FrameModel {
    pub offset: nat,
    pub header: MPEGFrameHeader,
    pub data: Seq<u8>,
}

impl View for MP3Frame {
    type V = FrameModel;

    open spec fn view(&self) -> FrameModel {
        FrameModel { offset: self.offset as nat, header: self.header, data: self.data@ }
    }
}

/// A byte at which no frame could be parsed, and why.
#[derive(Debug, Clone, Copy, PartialEq, Eq, Structural)]
pub struct SkippedByte {
    pub offset: usize,
    pub error: MPEGParseError,
}

/// The frame that starts at `pos` in `data`: its header, and the bytes after the header up
/// to the frame's end. The frame's length must be known and its end must lie within `data`;
/// otherwise the frame is `TruncatedBuffer`.
pub open spec fn frame_at(data: Seq<u8>, pos: int) -> Result<
    (MPEGFrameHeader, Seq<u8>),
    MPEGParseError,
> {
    match MPEGFrameHeader::decode(data.subrange(pos, data.len() as int)) {
        Err(e) => Err(e),
        Ok(header) => match header.length() {
            None => Err(MPEGParseError::TruncatedBuffer),
            Some(len) => if pos + len > data.len() {
                Err(MPEGParseError::TruncatedBuffer)
            } else {
                Ok((header, data.subrange(pos + 4, pos + len)))
            },
        },
    }
}

/// The frames and the skipped bytes met when walking `data` from `pos` to its end: after
/// a frame the walk goes on at the frame's end, after a byte where no frame can be parsed
/// at the next byte.
pub open spec fn walk(data: Seq<u8>, pos: int) -> (Seq<FrameModel>, Seq<SkippedByte>)
    decreases data.len() - pos,
{
    if pos < 0 || pos >= data.len() {
        (Seq::empty(), Seq::empty())
    } else {
        match frame_at(data, pos) {
            Ok((header, payload)) => {
                proof {
                    lemma_frame_length_bounds(data.subrange(pos, data.len() as int));
                }
                let rest = walk(data, pos + header.known_length());
                (
                    seq![FrameModel { offset: pos as nat, header, data: payload }] + rest.0,
                    rest.1,
                )
            },
            Err(error) => {
                let rest = walk(data, pos + 1);
                (rest.0, seq![SkippedByte { offset: pos as usize, error }] + rest.1)
            },
        }
    }
}

/// The models of a sequence of frames.
pub open spec fn frames_view(frames: Seq<MP3Frame>) -> Seq<FrameModel> {
    frames.map_values(|f: MP3Frame| f@)
}

impl MP3Frame {
    /// Parses the frame at the start of `data`.
    pub fn parse(data: Vec<u8>) -> (r: Result<MP3Frame, MPEGParseError>)
        ensures
            match frame_at(data@, 0) {
                Ok((header, payload)) => r matches Ok(f) && f@ == FrameModel {
                    offset: 0,
                    header,
                    data: payload,
                },
                Err(e) => r == Err::<MP3Frame, MPEGParseError>(e),
            },
    {
        Self::parse_at(&data, 0)
    }

    /// Parses the frame that starts at `pos` in `data`.
    pub fn parse_at(data: &Vec<u8>, pos: usize) -> (r: Result<MP3Frame, MPEGParseError>)
        requires
            pos <= data@.len(),
        ensures
            match frame_at(data@, pos as int) {
                Ok((header, payload)) => r matches Ok(f) && f@ == FrameModel {
                    offset: pos as nat,
                    header,
                    data: payload,
                },
                Err(e) => r == Err::<MP3Frame, MPEGParseError>(e),
            },
    {
        let len = data.len();
        let rest = &data.as_slice()[pos..len];
        let header = match MPEGFrameHeader::parse_slice(rest) {
            Ok(header) => header,
            Err(e) => return Err(e),
        };
        let frame_length = match header.frame_length() {
            Some(frame_length) => frame_length as usize,
            None => return Err(MPEGParseError::TruncatedBuffer),
        };
        if frame_length > len - pos {
            return Err(MPEGParseError::TruncatedBuffer);
        }
        let payload = vstd::slice::slice_to_vec(&data.as_slice()[pos + 4..pos + frame_length]);
        Ok(MP3Frame { offset: pos, header, data: payload })
    }
}

/// Walks `data` from `start` to its end: parses a frame at each position, goes on at the
/// frame's end after a frame and at the next byte after a failure.
pub fn walk_frames(data: &Vec<u8>, start: usize) -> (r: (Vec<MP3Frame>, Vec<SkippedByte>))
    ensures
        frames_view(r.0@) == walk(data@, start as int).0,
        r.1@ == walk(data@, start as int).1,
{
    let len = data.len();
    let mut frames: Vec<MP3Frame> = Vec::new();
    let mut skipped: Vec<SkippedByte> = Vec::new();
    let mut pos: usize = start;
    while pos < len
        invariant
            len == data@.len(),
            walk(data@, start as int).0 == frames_view(frames@) + walk(data@, pos as int).0,
            walk(data@, start as int).1 == skipped@ + walk(data@, pos as int).1,
        decreases len - pos,
    {
        match MP3Frame::parse_at(data, pos) {
            Ok(frame) => {
                proof {
                    lemma_frame_length_bounds(data@.subrange(pos as int, len as int));
                }
                let next = pos + 4 + frame.data.len();
                let ghost before = frames@;
                let ghost model = frame@;
                frames.push(frame);
                assert(frames_view(frames@) =~= frames_view(before) + seq![model]);
                pos = next;
            },
            Err(error) => {
                skipped.push(SkippedByte { offset: pos, error });
                pos = pos + 1;
            },
        }
    }
    (frames, skipped)
}

/// A decoded MP3 file: its ID3v2 tag, if it has one, and the frames found after it.
pub struct MP3 {
    pub id3v2: Option<ID3v2>,
    pub frames: Vec<MP3Frame>,
    /// The bytes at which no frame could be parsed, in order.
    pub skipped: Vec<SkippedByte>,
}

/// The mathematical value of an `MP3` document.
pub struct MP3Model {
    pub id3v2: Option<ID3v2Model>,
    pub frames: Seq<FrameModel>,
    pub skipped: Seq<SkippedByte>,
}

impl View for MP3 {
    type V = MP3Model;

    open spec fn view(&self) -> MP3Model {
        MP3Model {
            id3v2: match self.id3v2 {
                Some(tag) => Some(tag@),
                None => None,
            },
            frames: frames_view(self.frames@),
            skipped: self.skipped@,
        }
    }
}

/// Where the frames start: just past the tag, if there is one.
pub open spec fn stream_start(id3v2: Option<ID3v2Model>) -> int {
    match id3v2 {
        Some(tag) => tag.size as int,
        None => 0,
    }
}

/// The document made of a tag (or none) and the walk of `data` from the tag's end.
pub open spec fn stream_of(data: Seq<u8>, id3v2: Option<ID3v2Model>) -> MP3Model {
    let found = walk(data, stream_start(id3v2));
    MP3Model { id3v2, frames: found.0, skipped: found.1 }
}

/// The document that `data` decodes to: a malformed tag fails the whole parse, while
/// bytes where no frame can be parsed are skipped one at a time.
pub open spec fn mp3_of(data: Seq<u8>) -> Result<MP3Model, MPEGParseError> {
    if has_id3_identifier(data) {
        match tag_of(data) {
            Err(e) => Err(MPEGParseError::InvalidID3v2Tag(e)),
            Ok(tag) => Ok(stream_of(data, Some(tag))),
        }
    } else {
        Ok(stream_of(data, None))
    }
}

impl MP3 {
    /// Parses a whole MP3 file: the ID3v2 tag if the data starts with `ID3`, then every
    /// frame after it.
    pub fn parse(data: Vec<u8>) -> (r: Result<MP3, MPEGParseError>)
        ensures
            match mp3_of(data@) {
                Ok(doc) => r matches Ok(m) && m@ == doc,
                Err(e) => r matches Err(e2) && e2 == e,
            },
    {
        let id3v2 = if ID3v2::has_id3v2_tag_slice(data.as_slice()) {
            match ID3v2::parse_slice(data.as_slice()) {
                Ok(tag) => Some(tag),
                Err(e) => return Err(MPEGParseError::InvalidID3v2Tag(e)),
            }
        } else {
            None
        };
        Ok(Self::parse_stream(&data, id3v2))
    }

    /// Walks `data` for frames, starting just past `id3v2` if there is a tag, else at the
    /// start. Never fails: bytes where no frame can be parsed are skipped and recorded.
    pub fn parse_stream(data: &Vec<u8>, id3v2: Option<ID3v2>) -> (r: MP3)
        ensures
            r@ == stream_of(
                data@,
                match id3v2 {
                    Some(tag) => Some(tag@),
                    None => None,
                },
            ),
    {
        let start: usize = match &id3v2 {
            Some(tag) => tag.size as usize,
            None => 0,
        };
        let (frames, skipped) = walk_frames(data, start);
        MP3 { id3v2, frames, skipped }
    }

    /// The number of frames found.
    pub fn frame_count(&self) -> (r: usize)
        ensures
            r == self.frames@.len(),
    {
        self.frames.len()
    }
}

/// The total length of a sequence of frames.
pub open spec fn frames_length(frames: Seq<FrameModel>) -> int
    decreases frames.len(),
{
    if frames.len() == 0 {
        0
    } else {
        frames[0].header.known_length() + frames_length(frames.drop_first())
    }
}

/// The walk accounts for every byte from where it starts to the end of the data: the
/// lengths of the frames found plus the number of bytes skipped make up the distance.
pub proof fn lemma_walk_covers_data(data: Seq<u8>, pos: int)
    requires
        0 <= pos <= data.len(),
    ensures
        pos + frames_length(walk(data, pos).0) + walk(data, pos).1.len() == data.len(),
    decreases data.len() - pos,
{
    if pos < data.len() {
        match frame_at(data, pos) {
            Ok((header, payload)) => {
                lemma_frame_length_bounds(data.subrange(pos, data.len() as int));
                let next = pos + header.known_length();
                lemma_walk_covers_data(data, next);
                let model = FrameModel { offset: pos as nat, header, data: payload };
                assert((seq![model] + walk(data, next).0).drop_first() =~= walk(data, next).0);
            },
            Err(_) => {
                lemma_walk_covers_data(data, pos + 1);
            },
        }
    }
}

/// A single byte where no frame can be parsed, between two frames, is skipped on its own:
/// the walk finds the first frame, skips the byte, and finds the second frame right after.
pub proof fn lemma_walk_resyncs_after_one_byte(data: Seq<u8>, first: int)
    requires
        0 <= first,
        data.len() <= usize::MAX,
        frame_at(data, first) is Ok,
        frame_at(data, first + frame_at(data, first)->Ok_0.0.known_length()) is Err,
        frame_at(data, first + frame_at(data, first)->Ok_0.0.known_length() + 1) is Ok,
    ensures
        ({
            let garbage = first + frame_at(data, first)->Ok_0.0.known_length();
            let found = walk(data, first);
            &&& found.0.len() >= 2
            &&& found.0[0].offset == first
            &&& found.0[1].offset == garbage + 1
            &&& found.1.len() >= 1
            &&& found.1[0].offset == garbage
        }),
{
    let (header, payload) = frame_at(data, first)->Ok_0;
    let garbage = first + header.known_length();
    lemma_frame_length_bounds(data.subrange(first, data.len() as int));
    let (second, second_payload) = frame_at(data, garbage + 1)->Ok_0;
    lemma_frame_length_bounds(data.subrange(garbage + 1, data.len() as int));
    let error = frame_at(data, garbage)->Err_0;
    let after_garbage = walk(data, garbage + 1);
    let second_model = FrameModel {
        offset: (garbage + 1) as nat,
        header: second,
        data: second_payload,
    };
    let after_second = walk(data, garbage + 1 + second.known_length());
    assert(after_garbage.0 == seq![second_model] + after_second.0);
    let at_garbage = walk(data, garbage);
    assert(at_garbage.0 == after_garbage.0);
    assert(at_garbage.1 == seq![SkippedByte { offset: garbage as usize, error }] + after_garbage.1);
    let first_model = FrameModel { offset: first as nat, header, data: payload };
    assert(walk(data, first).0 == seq![first_model] + at_garbage.0);
    assert(walk(data, first).1 == at_garbage.1);
}

/// Whether a frame of a bitrate of the table starts at `pos` and ends at `end` within
/// `data`: its header has the frame sync, a bitrate of the table and a sample rate that is
/// not reserved, and its length is the one that the header gives.
pub open spec fn valid_frame(data: Seq<u8>, pos: int, end: int) -> bool {
    &&& 0 <= pos
    &&& pos + 4 <= data.len()
    &&& end <= data.len()
    &&& has_sync(word_at(data, pos))
    &&& 1 <= bitrate_index(word_at(data, pos)) <= 14
    &&& sample_rate_index(word_at(data, pos)) != 3
    &&& end == pos + header_frame_length(word_at(data, pos))
}

/// A valid frame parses to a frame of its header word whose data are the bytes from just
/// past the header to its end.
pub proof fn lemma_valid_frame(data: Seq<u8>, pos: int, end: int)
    requires
        valid_frame(data, pos, end),
    ensures
        frame_at(data, pos) matches Ok((header, payload)) && header.raw_header == word_at(
            data,
            pos,
        ) && header.known_length() == end - pos && payload == data.subrange(pos + 4, end),
{
    let rest = data.subrange(pos, data.len() as int);
    assert(word_at(rest, 0) == word_at(data, pos));
    lemma_table_header_length(rest);
}

/// Whether `data` holds, from `offsets[0]` on, frames that follow each other, each starting
/// at an offset and ending at the next one, and then fewer than four bytes.
pub open spec fn frame_chain(data: Seq<u8>, offsets: Seq<int>) -> bool {
    &&& offsets.len() >= 1
    &&& 0 <= offsets[0]
    &&& offsets.last() <= data.len() < offsets.last() + 4
    &&& forall|i: int|
        0 <= i < offsets.len() - 1 ==> #[trigger] valid_frame(data, offsets[i], offsets[i + 1])
}

/// From the `k`th offset of a chain of frames, the walk finds the rest of the chain, each
/// frame with its header word and its data, then skips each byte of the short tail with
/// `TruncatedBuffer`.
pub proof fn lemma_walk_follows_chain(data: Seq<u8>, offsets: Seq<int>, k: int)
    requires
        frame_chain(data, offsets),
        0 <= k < offsets.len(),
        0 <= offsets[k],
    ensures
        walk(data, offsets[k]).0.len() == offsets.len() - 1 - k,
        forall|i: int|
            0 <= i < offsets.len() - 1 - k ==> {
                let frame = #[trigger] walk(data, offsets[k]).0[i];
                &&& frame.offset == offsets[k + i]
                &&& frame.header.raw_header == word_at(data, offsets[k + i])
                &&& frame.data == data.subrange(offsets[k + i] + 4, offsets[k + i + 1])
            },
        walk(data, offsets[k]).1.len() == data.len() - offsets.last(),
        forall|j: int|
            0 <= j < walk(data, offsets[k]).1.len() ==> (#[trigger] walk(
                data,
                offsets[k],
            ).1[j]).error == MPEGParseError::TruncatedBuffer,
    decreases offsets.len() - k,
{
    if k < offsets.len() - 1 {
        assert(valid_frame(data, offsets[k], offsets[k + 1]));
        lemma_valid_frame(data, offsets[k], offsets[k + 1]);
        let (header, payload) = frame_at(data, offsets[k])->Ok_0;
        lemma_frame_length_bounds(data.subrange(offsets[k], data.len() as int));
        lemma_walk_follows_chain(data, offsets, k + 1);
        let rest = walk(data, offsets[k + 1]);
        let model = FrameModel { offset: offsets[k] as nat, header, data: payload };
        assert(walk(data, offsets[k]).0 == seq![model] + rest.0);
        assert(walk(data, offsets[k]).1 == rest.1);
        assert forall|i: int| 0 <= i < offsets.len() - 1 - k implies {
            let frame = #[trigger] walk(data, offsets[k]).0[i];
            &&& frame.offset == offsets[k + i]
            &&& frame.header.raw_header == word_at(data, offsets[k + i])
            &&& frame.data == data.subrange(offsets[k + i] + 4, offsets[k + i + 1])
        } by {
            if i > 0 {
                assert(walk(data, offsets[k]).0[i] == rest.0[i - 1]);
                assert(k + 1 + (i - 1) == k + i);
            }
        }
    } else if offsets[k] < data.len() {
        lemma_short_tail(data, offsets[k]);
    }
}

/// Data made of a valid tag of total size `T`, then `N` frames that follow each other, then
/// fewer than four bytes, decodes to that tag and exactly those `N` frames, the first
/// starting at offset `T`, each with its header word and its data; the bytes of the tail are
/// skipped with `TruncatedBuffer`, and when there is no tail no byte is skipped.
pub proof fn lemma_tag_then_frames(data: Seq<u8>, offsets: Seq<int>)
    requires
        tag_of(data) is Ok,
        offsets.len() >= 1,
        offsets[0] == tag_of(data)->Ok_0.size,
        frame_chain(data, offsets),
    ensures
        mp3_of(data) matches Ok(doc) && doc.id3v2 == Some(tag_of(data)->Ok_0)
            && doc.frames.len() == offsets.len() - 1 && doc.skipped.len() == data.len()
            - offsets.last(),
        offsets.len() > 1 ==> mp3_of(data)->Ok_0.frames[0].offset == tag_of(data)->Ok_0.size,
        forall|i: int|
            0 <= i < offsets.len() - 1 ==> {
                let frame = #[trigger] mp3_of(data)->Ok_0.frames[i];
                &&& frame.offset == offsets[i]
                &&& frame.header.raw_header == word_at(data, offsets[i])
                &&& frame.data == data.subrange(offsets[i] + 4, offsets[i + 1])
            },
        forall|j: int|
            0 <= j < mp3_of(data)->Ok_0.skipped.len() ==> (#[trigger] mp3_of(
                data,
            )->Ok_0.skipped[j]).error == MPEGParseError::TruncatedBuffer,
{
    lemma_walk_follows_chain(data, offsets, 0);
    assert forall|i: int| 0 <= i < offsets.len() - 1 implies {
        let frame = #[trigger] mp3_of(data)->Ok_0.frames[i];
        &&& frame.offset == offsets[i]
        &&& frame.header.raw_header == word_at(data, offsets[i])
        &&& frame.data == data.subrange(offsets[i] + 4, offsets[i + 1])
    } by {
        assert(mp3_of(data)->Ok_0.frames[i] == walk(data, offsets[0]).0[i]);
        assert(0 + i == i);
    }
}

/// Data that starts with a frame sync does not start with `ID3`.
pub proof fn lemma_frame_is_not_a_tag(data: Seq<u8>, end: int)
    requires
        valid_frame(data, 0, end),
    ensures
        !has_id3_identifier(data),
{
    let w = word_at(data, 0);
    let (b0, b1, b2, b3) = (data[0], data[1], data[2], data[3]);
    assert(w == be_u32(b0, b1, b2, b3));
    assert(w & 0xFFE0_0000u32 == 0xFFE0_0000u32 && w == (((b0 as u32) << 24u32) | ((b1 as u32)
        << 16u32) | ((b2 as u32) << 8u32) | (b3 as u32)) ==> b0 == 0xFFu8) by (bit_vector);
}

/// Two frames with a single byte between them where no frame can be parsed, and nothing
/// else: the document holds exactly the two frames, each with its header word and its data,
/// and the one byte between them is skipped.
pub proof fn lemma_one_byte_between_two_frames(data: Seq<u8>, garbage: int)
    requires
        data.len() <= usize::MAX,
        valid_frame(data, 0, garbage),
        frame_at(data, garbage) is Err,
        valid_frame(data, garbage + 1, data.len() as int),
    ensures
        mp3_of(data) matches Ok(doc) && doc.id3v2 is None && doc.frames.len() == 2
            && doc.skipped.len() == 1,
        mp3_of(data)->Ok_0.frames[0].offset == 0,
        mp3_of(data)->Ok_0.frames[0].header.raw_header == word_at(data, 0),
        mp3_of(data)->Ok_0.frames[0].data == data.subrange(4, garbage),
        mp3_of(data)->Ok_0.frames[1].offset == garbage + 1,
        mp3_of(data)->Ok_0.frames[1].header.raw_header == word_at(data, garbage + 1),
        mp3_of(data)->Ok_0.frames[1].data == data.subrange(garbage + 5, data.len() as int),
        mp3_of(data)->Ok_0.skipped[0] == (SkippedByte {
            offset: garbage as usize,
            error: frame_at(data, garbage)->Err_0,
        }),
{
    lemma_frame_is_not_a_tag(data, garbage);
    lemma_valid_frame(data, 0, garbage);
    lemma_valid_frame(data, garbage + 1, data.len() as int);
    let (first, first_payload) = frame_at(data, 0)->Ok_0;
    let (second, second_payload) = frame_at(data, garbage + 1)->Ok_0;
    lemma_frame_length_bounds(data.subrange(0, data.len() as int));
    lemma_frame_length_bounds(data.subrange(garbage + 1, data.len() as int));
    let second_model = FrameModel {
        offset: (garbage + 1) as nat,
        header: second,
        data: second_payload,
    };
    let after = walk(data, garbage + 1);
    assert(walk(data, data.len() as int).0.len() == 0);
    assert(after.0 =~= seq![second_model]);
    assert(after.1.len() == 0);
    let skip = SkippedByte { offset: garbage as usize, error: frame_at(data, garbage)->Err_0 };
    assert(walk(data, garbage).0 == after.0);
    assert(walk(data, garbage).1 =~= seq![skip]);
    let first_model = FrameModel { offset: 0, header: first, data: first_payload };
    assert(walk(data, 0).0 =~= seq![first_model, second_model]);
    assert(walk(data, 0).1 =~= seq![skip]);
}

/// Data without a tag made of `N >= 1` frames that follow each other from offset 0, then
/// fewer than four bytes, decodes to exactly those `N` frames, each with its header word
/// and its data, and the walk ends by skipping each byte of the tail with
/// `TruncatedBuffer`.
pub proof fn lemma_frames_then_short_tail(data: Seq<u8>, offsets: Seq<int>)
    requires
        offsets.len() >= 2,
        offsets[0] == 0,
        frame_chain(data, offsets),
    ensures
        mp3_of(data) matches Ok(doc) && doc.id3v2 is None && doc.frames.len() == offsets.len()
            - 1 && doc.skipped.len() == data.len() - offsets.last(),
        forall|i: int|
            0 <= i < offsets.len() - 1 ==> {
                let frame = #[trigger] mp3_of(data)->Ok_0.frames[i];
                &&& frame.offset == offsets[i]
                &&& frame.header.raw_header == word_at(data, offsets[i])
                &&& frame.data == data.subrange(offsets[i] + 4, offsets[i + 1])
            },
        forall|j: int|
            0 <= j < mp3_of(data)->Ok_0.skipped.len() ==> (#[trigger] mp3_of(
                data,
            )->Ok_0.skipped[j]).error == MPEGParseError::TruncatedBuffer,
{
    assert(valid_frame(data, offsets[0], offsets[1]));
    lemma_frame_is_not_a_tag(data, offsets[1]);
    lemma_walk_follows_chain(data, offsets, 0);
    assert forall|i: int| 0 <= i < offsets.len() - 1 implies {
        let frame = #[trigger] mp3_of(data)->Ok_0.frames[i];
        &&& frame.offset == offsets[i]
        &&& frame.header.raw_header == word_at(data, offsets[i])
        &&& frame.data == data.subrange(offsets[i] + 4, offsets[i + 1])
    } by {
        assert(mp3_of(data)->Ok_0.frames[i] == walk(data, offsets[0]).0[i]);
        assert(0 + i == i);
    }
}

/// Parsing depends on the bytes alone: parsing the same data twice gives the same
/// document.
pub proof fn lemma_parse_is_deterministic(first: Seq<u8>, second: Seq<u8>)
    requires
        first == second,
    ensures
        mp3_of(first) == mp3_of(second),
{
}

/// Fewer than four bytes left: no frame can start there, each such byte is skipped with
/// `TruncatedBuffer`, and the walk ends without a frame.
pub proof fn lemma_short_tail(data: Seq<u8>, pos: int)
    requires
        0 <= pos < data.len() < pos + 4,
    ensures
        frame_at(data, pos) == Err::<(MPEGFrameHeader, Seq<u8>), MPEGParseError>(
            MPEGParseError::TruncatedBuffer,
        ),
        walk(data, pos).0.len() == 0,
        walk(data, pos).1.len() == data.len() - pos,
        forall|i: int|
            0 <= i < walk(data, pos).1.len() ==> walk(data, pos).1[i].error
                == MPEGParseError::TruncatedBuffer,
    decreases data.len() - pos,
{
    if pos + 1 < data.len() {
        lemma_short_tail(data, pos + 1);
    }
    let rest = walk(data, pos + 1);
    assert forall|i: int| 0 <= i < walk(data, pos).1.len() implies walk(data, pos).1[i].error
        == MPEGParseError::TruncatedBuffer by {
        if i > 0 {
            assert(walk(data, pos).1[i] == rest.1[i - 1]);
        }
    }
}

} // verus!
