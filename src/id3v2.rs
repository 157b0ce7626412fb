use vstd::prelude::*;

use crate::bytes::{be_u16, be_u32, read_be_u16, read_be_u32};
use crate::mpegparserror::ID3v2ParseError;

verus! {

/// The length of the tag header, and of each frame header inside the tag.
pub const ID3V2_HEADER_LEN: u32 = 10;

/// What `String::from_utf8_lossy` makes of a byte sequence.
pub uninterp spec fn utf8_lossy(bytes: Seq<u8>) -> Seq<char>;

/// Whether every byte is below 0x80.
pub open spec fn is_ascii_bytes(bytes: Seq<u8>) -> bool {
    forall|i: int| 0 <= i < bytes.len() ==> bytes[i] < 0x80
}

/// The characters of ASCII bytes, one for each byte.
pub open spec fn ascii_chars(bytes: Seq<u8>) -> Seq<char> {
    bytes.map_values(|b: u8| b as char)
}

/// Relies on `String::from_utf8_lossy`: the result depends on the bytes alone, and ASCII
/// bytes, being valid UTF-8, come out as the same characters.
#[verifier::external_body]
fn string_from_bytes(bytes: &[u8]) -> (r: String)
    ensures
        r@ == utf8_lossy(bytes@),
        is_ascii_bytes(bytes@) ==> r@ == ascii_chars(bytes@),
{
    String::from_utf8_lossy(bytes).into_owned()
}

/// Whether `data` starts with the ASCII identifier `ID3`.
pub open spec fn has_id3_identifier(data: Seq<u8>) -> bool {
    data.len() >= 3 && data[0] == 0x49 && data[1] == 0x44 && data[2] == 0x33
}

/// The value of the first `n` bytes of a synchsafe integer: each byte gives its low 7
/// bits, most significant byte first.
pub open spec fn synchsafe_prefix(bytes: Seq<u8>, n: int) -> int
    decreases n,
{
    if n <= 0 {
        0
    } else {
        synchsafe_prefix(bytes, n - 1) * 128 + (bytes[n - 1] & 0x7F) as int
    }
}

/// The size of the whole tag, header included: the synchsafe size of bytes 6 to 9, plus 10.
pub open spec fn tag_size(data: Seq<u8>) -> int {
    synchsafe_prefix(data.subrange(6, 10), 4) + ID3V2_HEADER_LEN
}

/// The four-character code of an ID3v2 frame.
pub open spec fn code(a: char, b: char, c: char, d: char) -> Seq<u8> {
    seq![a as u8, b as u8, c as u8, d as u8]
}

/// An ID3v2 frame identifier: one of the well-known text frames, or any other code.
#[derive(Debug, PartialEq, Eq)]
pub enum FrameIdentifier {
    TrackNumber,
    EncodedBy,
    URL,
    Copyright,
    OriginalArtist,
    Composer,
    Genre,
    Comments,
    Year,
    Album,
    Artist,
    SongName,
    Other(String),
}

/// The mathematical value of a `FrameIdentifier`.
pub enum IdentifierModel {
    TrackNumber,
    EncodedBy,
    URL,
    Copyright,
    OriginalArtist,
    Composer,
    Genre,
    Comments,
    Year,
    Album,
    Artist,
    SongName,
    Other(Seq<char>),
}

impl View for FrameIdentifier {
    type V = IdentifierModel;

    open spec fn view(&self) -> IdentifierModel {
        match self {
            FrameIdentifier::TrackNumber => IdentifierModel::TrackNumber,
            FrameIdentifier::EncodedBy => IdentifierModel::EncodedBy,
            FrameIdentifier::URL => IdentifierModel::URL,
            FrameIdentifier::Copyright => IdentifierModel::Copyright,
            FrameIdentifier::OriginalArtist => IdentifierModel::OriginalArtist,
            FrameIdentifier::Composer => IdentifierModel::Composer,
            FrameIdentifier::Genre => IdentifierModel::Genre,
            FrameIdentifier::Comments => IdentifierModel::Comments,
            FrameIdentifier::Year => IdentifierModel::Year,
            FrameIdentifier::Album => IdentifierModel::Album,
            FrameIdentifier::Artist => IdentifierModel::Artist,
            FrameIdentifier::SongName => IdentifierModel::SongName,
            FrameIdentifier::Other(s) => IdentifierModel::Other(s@),
        }
    }
}

/// The identifier that a four-byte code stands for.
pub open spec fn identifier_of(c: Seq<u8>) -> IdentifierModel {
    if c == code('T', 'R', 'C', 'K') {
        IdentifierModel::TrackNumber
    } else if c == code('T', 'E', 'N', 'C') {
        IdentifierModel::EncodedBy
    } else if c == code('W', 'X', 'X', 'X') {
        IdentifierModel::URL
    } else if c == code('T', 'C', 'O', 'P') {
        IdentifierModel::Copyright
    } else if c == code('T', 'O', 'P', 'E') {
        IdentifierModel::OriginalArtist
    } else if c == code('T', 'C', 'O', 'M') {
        IdentifierModel::Composer
    } else if c == code('T', 'C', 'O', 'N') {
        IdentifierModel::Genre
    } else if c == code('C', 'O', 'M', 'M') {
        IdentifierModel::Comments
    } else if c == code('T', 'Y', 'E', 'R') {
        IdentifierModel::Year
    } else if c == code('T', 'A', 'L', 'B') {
        IdentifierModel::Album
    } else if c == code('T', 'P', 'E', '1') {
        IdentifierModel::Artist
    } else if c == code('T', 'I', 'T', '2') {
        IdentifierModel::SongName
    } else {
        IdentifierModel::Other(utf8_lossy(c))
    }
}

/// Whether the first four bytes of `bytes` are the code `a b c d`.
fn starts_with_code(bytes: &[u8], a: u8, b: u8, c: u8, d: u8) -> (r: bool)
    requires
        bytes@.len() >= 4,
    ensures
        r == (bytes@.subrange(0, 4) == seq![a, b, c, d]),
{
    let r = bytes[0] == a && bytes[1] == b && bytes[2] == c && bytes[3] == d;
    assert(r ==> bytes@.subrange(0, 4) =~= seq![a, b, c, d]);
    assert(bytes@.subrange(0, 4) == seq![a, b, c, d] ==> bytes@.subrange(0, 4)[3] == d);
    r
}

impl FrameIdentifier {
    /// Reads a frame identifier from the first four bytes of `bytes`.
    pub fn parse(bytes: Vec<u8>) -> (r: FrameIdentifier)
        requires
            bytes@.len() >= 4,
        ensures
            r@ == identifier_of(bytes@.subrange(0, 4)),
            r@ matches IdentifierModel::Other(name) ==> (is_ascii_bytes(bytes@.subrange(0, 4))
                ==> name == ascii_chars(bytes@.subrange(0, 4))),
    {
        Self::parse_slice(bytes.as_slice())
    }

    fn parse_slice(bytes: &[u8]) -> (r: FrameIdentifier)
        requires
            bytes@.len() >= 4,
        ensures
            r@ == identifier_of(bytes@.subrange(0, 4)),
            r@ matches IdentifierModel::Other(name) ==> (is_ascii_bytes(bytes@.subrange(0, 4))
                ==> name == ascii_chars(bytes@.subrange(0, 4))),
    {
        if starts_with_code(bytes, 'T' as u8, 'R' as u8, 'C' as u8, 'K' as u8) {
            FrameIdentifier::TrackNumber
        } else if starts_with_code(bytes, 'T' as u8, 'E' as u8, 'N' as u8, 'C' as u8) {
            FrameIdentifier::EncodedBy
        } else if starts_with_code(bytes, 'W' as u8, 'X' as u8, 'X' as u8, 'X' as u8) {
            FrameIdentifier::URL
        } else if starts_with_code(bytes, 'T' as u8, 'C' as u8, 'O' as u8, 'P' as u8) {
            FrameIdentifier::Copyright
        } else if starts_with_code(bytes, 'T' as u8, 'O' as u8, 'P' as u8, 'E' as u8) {
            FrameIdentifier::OriginalArtist
        } else if starts_with_code(bytes, 'T' as u8, 'C' as u8, 'O' as u8, 'M' as u8) {
            FrameIdentifier::Composer
        } else if starts_with_code(bytes, 'T' as u8, 'C' as u8, 'O' as u8, 'N' as u8) {
            FrameIdentifier::Genre
        } else if starts_with_code(bytes, 'C' as u8, 'O' as u8, 'M' as u8, 'M' as u8) {
            FrameIdentifier::Comments
        } else if starts_with_code(bytes, 'T' as u8, 'Y' as u8, 'E' as u8, 'R' as u8) {
            FrameIdentifier::Year
        } else if starts_with_code(bytes, 'T' as u8, 'A' as u8, 'L' as u8, 'B' as u8) {
            FrameIdentifier::Album
        } else if starts_with_code(bytes, 'T' as u8, 'P' as u8, 'E' as u8, '1' as u8) {
            FrameIdentifier::Artist
        } else if starts_with_code(bytes, 'T' as u8, 'I' as u8, 'T' as u8, '2' as u8) {
            FrameIdentifier::SongName
        } else {
            FrameIdentifier::Other(string_from_bytes(&bytes[0..4]))
        }
    }
}

/// An ID3v2 text frame: a 10-byte header (identifier, size, flags) and its payload.
pub struct ID3v2Frame {
    pub id: FrameIdentifier,
    /// The size of the whole frame, its 10-byte header included.
    pub size: u32,
    pub flags: u16,
    pub data: Vec<u8>,
}

/// The mathematical value of an `ID3v2Frame`.
pub struct ID3v2FrameModel {
    pub id: IdentifierModel,
    pub size: nat,
    pub flags: u16,
    pub data: Seq<u8>,
}

impl View for ID3v2Frame {
    type V = ID3v2FrameModel;

    open spec fn view(&self) -> ID3v2FrameModel {
        ID3v2FrameModel {
            id: self.id@,
            size: self.size as nat,
            flags: self.flags,
            data: self.data@,
        }
    }
}

/// The frame record at `pos` of `data`, which must end no later than `limit`. Its size
/// field counts the payload only; the record is 10 bytes longer. A record longer than
/// `u32::MAX` bytes cannot be represented and counts as running past the end.
pub open spec fn record_at(data: Seq<u8>, pos: int, limit: int) -> Result<
    ID3v2FrameModel,
    ID3v2ParseError,
> {
    if pos + ID3V2_HEADER_LEN > limit {
        Err(ID3v2ParseError::TruncatedBuffer)
    } else {
        let size = be_u32(data[pos + 4], data[pos + 5], data[pos + 6], data[pos + 7]) as int
            + ID3V2_HEADER_LEN;
        if pos + size > limit || size > u32::MAX {
            Err(ID3v2ParseError::TruncatedBuffer)
        } else {
            Ok(
                ID3v2FrameModel {
                    id: identifier_of(data.subrange(pos, pos + 4)),
                    size: size as nat,
                    flags: be_u16(data[pos + 8], data[pos + 9]),
                    data: data.subrange(pos + ID3V2_HEADER_LEN, pos + size),
                },
            )
        }
    }
}

/// A frame record is at least as long as its header.
pub proof fn lemma_record_size(data: Seq<u8>, pos: int, limit: int)
    ensures
        record_at(data, pos, limit) matches Ok(frame) ==> frame.size >= ID3V2_HEADER_LEN,
{
}

/// The frame records from `pos` on, one after the other, while they start before `end`;
/// each must end no later than `limit`.
pub open spec fn records(data: Seq<u8>, pos: int, end: int, limit: int) -> Result<
    Seq<ID3v2FrameModel>,
    ID3v2ParseError,
>
    decreases limit - pos,
{
    if pos >= end {
        Ok(Seq::empty())
    } else {
        proof {
            lemma_record_size(data, pos, limit);
        }
        match record_at(data, pos, limit) {
            Err(e) => Err(e),
            Ok(frame) => match records(
                data,
                pos + frame.size,
                end,
                limit,
            ) {
                Err(e) => Err(e),
                Ok(rest) => Ok(seq![frame] + rest),
            },
        }
    }
}

/// The models of a sequence of frame records.
pub open spec fn records_view(frames: Seq<ID3v2Frame>) -> Seq<ID3v2FrameModel> {
    frames.map_values(|f: ID3v2Frame| f@)
}

impl ID3v2Frame {
    /// Parses the frame record at the start of `data`; the record must lie within `data`.
    pub fn parse(data: Vec<u8>) -> (r: Result<ID3v2Frame, ID3v2ParseError>)
        ensures
            match record_at(data@, 0, data@.len() as int) {
                Ok(frame) => r matches Ok(f) && f@ == frame,
                Err(e) => r matches Err(e2) && e2 == e,
            },
    {
        let len = data.len();
        Self::parse_at(data.as_slice(), 0, len)
    }

    /// Parses the frame record at `pos` of `data`, which must end no later than `limit`.
    pub fn parse_at(data: &[u8], pos: usize, limit: usize) -> (r: Result<
        ID3v2Frame,
        ID3v2ParseError,
    >)
        requires
            limit <= data@.len(),
        ensures
            match record_at(data@, pos as int, limit as int) {
                Ok(frame) => r matches Ok(f) && f@ == frame,
                Err(e) => r matches Err(e2) && e2 == e,
            },
    {
        if pos > limit || limit - pos < 10 {
            return Err(ID3v2ParseError::TruncatedBuffer);
        }
        let declared = read_be_u32(data, pos + 4);
        let size = declared as u64 + 10;
        if size > (limit - pos) as u64 || size > u32::MAX as u64 {
            return Err(ID3v2ParseError::TruncatedBuffer);
        }
        let size = size as usize;
        let id = FrameIdentifier::parse_slice(&data[pos..pos + 4]);
        let flags = read_be_u16(data, pos + 8);
        let payload = vstd::slice::slice_to_vec(&data[pos + 10..pos + size]);
        proof {
            assert(data@.subrange(pos as int, pos + 4).subrange(0, 4) =~= data@.subrange(
                pos as int,
                pos + 4,
            ));
        }
        Ok(ID3v2Frame { id, size: size as u32, flags, data: payload })
    }
}

/// An ID3v2 metadata tag at the start of an MP3 file.
pub struct ID3v2 {
    pub version: u16,
    /// The size of the whole tag, its 10-byte header included.
    pub size: u32,
    pub flags: u8,
    pub frames: Vec<ID3v2Frame>,
}

/// The mathematical value of an `ID3v2` tag.
pub struct ID3v2Model {
    pub version: u16,
    pub size: u32,
    pub flags: u8,
    pub frames: Seq<ID3v2FrameModel>,
}

impl View for ID3v2 {
    type V = ID3v2Model;

    open spec fn view(&self) -> ID3v2Model {
        ID3v2Model {
            version: self.version,
            size: self.size,
            flags: self.flags,
            frames: records_view(self.frames@),
        }
    }
}

/// The tag at the start of `data`: the identifier `ID3`, a big-endian version, a flags byte,
/// a synchsafe size, then frame records up to the end of the tag. Every record must lie
/// within the tag and within `data`.
pub open spec fn tag_of(data: Seq<u8>) -> Result<ID3v2Model, ID3v2ParseError> {
    if !has_id3_identifier(data) {
        Err(ID3v2ParseError::InvalidHeader)
    } else if data.len() < ID3V2_HEADER_LEN {
        Err(ID3v2ParseError::TruncatedBuffer)
    } else {
        let size = tag_size(data);
        let limit = if size < data.len() {
            size
        } else {
            data.len() as int
        };
        match records(data, ID3V2_HEADER_LEN as int, size, limit) {
            Err(e) => Err(e),
            Ok(frames) => Ok(
                ID3v2Model {
                    version: be_u16(data[3], data[4]),
                    size: size as u32,
                    flags: data[5],
                    frames,
                },
            ),
        }
    }
}

/// The low seven bits of a byte.
proof fn lemma_low_seven_bits(b: u8)
    ensures
        b & 0x7F < 128,
{
    assert(b & 0x7Fu8 < 128) by (bit_vector);
}

/// Reads the synchsafe size in bytes 6 to 9.
fn read_synchsafe_size(data: &[u8]) -> (r: u32)
    requires
        data@.len() >= 10,
    ensures
        r == synchsafe_prefix(data@.subrange(6, 10), 4),
        r < 0x1000_0000,
{
    let ghost b = data@.subrange(6, 10);
    let mut size: u32 = 0;
    let mut i: usize = 0;
    while i < 4
        invariant
            i <= 4,
            data@.len() >= 10,
            b == data@.subrange(6, 10),
            size == synchsafe_prefix(b, i as int),
            i == 0 ==> size < 1,
            i == 1 ==> size < 0x80,
            i == 2 ==> size < 0x4000,
            i == 3 ==> size < 0x20_0000,
            i == 4 ==> size < 0x1000_0000,
        decreases 4 - i,
    {
        let low = data[6 + i] & 0x7F;
        proof {
            lemma_low_seven_bits(data@[6 + i]);
        }
        size = size * 128 + low as u32;
        i = i + 1;
    }
    size
}

impl ID3v2 {
    /// Parses the ID3v2 tag at the start of `data`.
    pub fn parse(data: Vec<u8>) -> (r: Result<ID3v2, ID3v2ParseError>)
        ensures
            match tag_of(data@) {
                Ok(tag) => r matches Ok(t) && t@ == tag,
                Err(e) => r matches Err(e2) && e2 == e,
            },
    {
        Self::parse_slice(data.as_slice())
    }

    /// Parses the ID3v2 tag at the start of `data`.
    pub fn parse_slice(data: &[u8]) -> (r: Result<ID3v2, ID3v2ParseError>)
        ensures
            match tag_of(data@) {
                Ok(tag) => r matches Ok(t) && t@ == tag,
                Err(e) => r matches Err(e2) && e2 == e,
            },
    {
        if !Self::has_id3v2_tag_slice(data) {
            return Err(ID3v2ParseError::InvalidHeader);
        }
        let len = data.len();
        if len < 10 {
            return Err(ID3v2ParseError::TruncatedBuffer);
        }
        let version = read_be_u16(data, 3);
        let flags = data[5];
        let size = read_synchsafe_size(data) + 10;
        let limit: usize = if (size as usize) < len {
            size as usize
        } else {
            len
        };

        let mut frames: Vec<ID3v2Frame> = Vec::new();
        let mut pos: usize = 10;
        while pos < size as usize
            invariant
                len == data@.len(),
                len >= 10,
                has_id3_identifier(data@),
                version == be_u16(data@[3], data@[4]),
                flags == data@[5],
                limit <= len,
                limit == (if size < len {
                    size as int
                } else {
                    len as int
                }),
                size == tag_size(data@),
                records(data@, 10, size as int, limit as int) == (match records(
                    data@,
                    pos as int,
                    size as int,
                    limit as int,
                ) {
                    Ok(rest) => Ok(records_view(frames@) + rest),
                    Err(e) => Err(e),
                }),
            decreases size - pos,
        {
            let frame = match ID3v2Frame::parse_at(data, pos, limit) {
                Ok(frame) => frame,
                Err(e) => return Err(e),
            };
            let next = pos + frame.size as usize;
            let ghost before = frames@;
            let ghost model = frame@;
            frames.push(frame);
            assert(records_view(frames@) =~= records_view(before) + seq![model]);
            proof {
                if let Ok(rest) = records(data@, next as int, size as int, limit as int) {
                    assert(records_view(before) + (seq![model] + rest) =~= records_view(frames@)
                        + rest);
                }
            }
            pos = next;
        }
        Ok(ID3v2 { version, size, flags, frames })
    }

    /// Whether `data` starts with the ASCII identifier `ID3`; data shorter than three bytes
    /// has no tag.
    pub fn has_id3v2_tag(data: Vec<u8>) -> (r: bool)
        ensures
            r == has_id3_identifier(data@),
    {
        Self::has_id3v2_tag_slice(data.as_slice())
    }

    /// Whether `data` starts with the ASCII identifier `ID3`.
    pub fn has_id3v2_tag_slice(data: &[u8]) -> (r: bool)
        ensures
            r == has_id3_identifier(data@),
    {
        data.len() >= 3 && data[0] == 0x49 && data[1] == 0x44 && data[2] == 0x33
    }
}

} // verus!
