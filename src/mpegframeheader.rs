pub mod copyright;
pub mod crcprotection;
pub mod framebitrate;
pub mod framepadding;
pub mod mpegframesync;
pub mod mpeglayer;
pub mod mpegversion;
pub mod samplerate;

use vstd::prelude::*;

use self::copyright::{copyright_bit, Copyright};
use self::crcprotection::{protection_bit, CRCProtection};
use self::framebitrate::{bitrate_index, kbps_of_index, FrameBitrate};
use self::framepadding::{padding_bit, FramePadding};
use self::mpegframesync::{has_sync, MPEGFrameSync};
use self::mpeglayer::{layer_id, MPEGLayer};
use self::mpegversion::{version_id, MPEGVersion};
use self::samplerate::{sample_rate_index, SampleRate};
use crate::bytes::{read_be_u32, word_at};
use crate::mpegparserror::MPEGParseError;

verus! {

/// How far past its header the end of a free-bitrate frame is looked for, unless the
/// caller gives another bound.
pub const MAX_FREE_FRAME_LENGTH: usize = 4096;

pub const PRIVATE_BIT_MASK: u32 = 0x0000_0100;
pub const PRIVATE_BIT_OFFSET: u32 = 8;

/// The private bit, bit 8 of a header word.
pub open spec fn private_bit(header: u32) -> u32 {
    (header & PRIVATE_BIT_MASK) >> PRIVATE_BIT_OFFSET
}

pub const CHANNEL_MODE_MASK: u32 = 0x0000_00C0;
pub const CHANNEL_MODE_OFFSET: u32 = 6;

/// The two-bit channel mode held in bits 6 and 7 of a header word.
pub open spec fn channel_mode_id(header: u32) -> u32 {
    (header & CHANNEL_MODE_MASK) >> CHANNEL_MODE_OFFSET
}

/// The channel mode of the frame.
#[derive(Debug, Clone, Copy, PartialEq, Eq, Structural)]
pub enum MP3ChannelMode {
    Stereo,
    JointStereo,
    DualChannel,
    SingleChannel,
}

impl MP3ChannelMode {
    /// The value that an ID stands for.
    pub open spec fn from_id(id: u32) -> MP3ChannelMode {
        if id == 0 {
            MP3ChannelMode::Stereo
        } else if id == 1 {
            MP3ChannelMode::JointStereo
        } else if id == 2 {
            MP3ChannelMode::DualChannel
        } else {
            MP3ChannelMode::SingleChannel
        }
    }

    /// Reads this field from a 32-bit frame header.
    fn parse(header: u32) -> (r: MP3ChannelMode)
        ensures
            r == MP3ChannelMode::from_id(channel_mode_id(header)),
    {
        let id = (header & CHANNEL_MODE_MASK) >> CHANNEL_MODE_OFFSET;
        if id == 0 {
            MP3ChannelMode::Stereo
        } else if id == 1 {
            MP3ChannelMode::JointStereo
        } else if id == 2 {
            MP3ChannelMode::DualChannel
        } else {
            MP3ChannelMode::SingleChannel
        }
    }
}

pub const MODE_EXTENSION_MASK: u32 = 0x0000_0030;
pub const MODE_EXTENSION_OFFSET: u32 = 4;

/// The two-bit mode extension held in bits 4 and 5 of a header word.
pub open spec fn mode_extension_id(header: u32) -> u32 {
    (header & MODE_EXTENSION_MASK) >> MODE_EXTENSION_OFFSET
}

/// The mode extension of the frame, meaningful in joint stereo only.
#[derive(Debug, Clone, Copy, PartialEq, Eq, Structural)]
pub enum MP3ModeExtension {
    Bands4To31,
    Bands8To31,
    Bands12To31,
    Bands16To31,
}

impl MP3ModeExtension {
    /// The value that an ID stands for.
    pub open spec fn from_id(id: u32) -> MP3ModeExtension {
        if id == 0 {
            MP3ModeExtension::Bands4To31
        } else if id == 1 {
            MP3ModeExtension::Bands8To31
        } else if id == 2 {
            MP3ModeExtension::Bands12To31
        } else {
            MP3ModeExtension::Bands16To31
        }
    }

    /// Reads this field from a 32-bit frame header.
    fn parse(header: u32) -> (r: MP3ModeExtension)
        ensures
            r == MP3ModeExtension::from_id(mode_extension_id(header)),
    {
        let id = (header & MODE_EXTENSION_MASK) >> MODE_EXTENSION_OFFSET;
        if id == 0 {
            MP3ModeExtension::Bands4To31
        } else if id == 1 {
            MP3ModeExtension::Bands8To31
        } else if id == 2 {
            MP3ModeExtension::Bands12To31
        } else {
            MP3ModeExtension::Bands16To31
        }
    }
}

pub const ORIGINAL_MASK: u32 = 0x0000_0004;
pub const ORIGINAL_OFFSET: u32 = 2;

/// The original bit, bit 2 of a header word.
pub open spec fn original_id(header: u32) -> u32 {
    (header & ORIGINAL_MASK) >> ORIGINAL_OFFSET
}

/// Whether the frame is on its original medium or a copy.
#[derive(Debug, Clone, Copy, PartialEq, Eq, Structural)]
pub enum Original {
    Original,
    Copy,
}

impl Original {
    /// The value that an ID stands for.
    pub open spec fn from_id(id: u32) -> Original {
        if id == 0 {
            Original::Original
        } else {
            Original::Copy
        }
    }

    /// Reads this field from a 32-bit frame header.
    fn parse(header: u32) -> (r: Original)
        ensures
            r == Original::from_id(original_id(header)),
    {
        let id = (header & ORIGINAL_MASK) >> ORIGINAL_OFFSET;
        if id == 0 {
            Original::Original
        } else {
            Original::Copy
        }
    }
}

pub const EMPHASIS_MASK: u32 = 0x0000_0003;
pub const EMPHASIS_OFFSET: u32 = 0;

/// The two-bit emphasis held in bits 0 and 1 of a header word.
pub open spec fn emphasis_id(header: u32) -> u32 {
    (header & EMPHASIS_MASK) >> EMPHASIS_OFFSET
}

/// The emphasis that the audio was encoded with.
#[derive(Debug, Clone, Copy, PartialEq, Eq, Structural)]
pub enum MP3Emphasis {
    NoEmphasis,
    FiftyFifteen,
    Reserved,
    CCITJ17,
}

impl MP3Emphasis {
    /// The value that an ID stands for.
    pub open spec fn from_id(id: u32) -> MP3Emphasis {
        if id == 0 {
            MP3Emphasis::NoEmphasis
        } else if id == 1 {
            MP3Emphasis::FiftyFifteen
        } else if id == 2 {
            MP3Emphasis::Reserved
        } else {
            MP3Emphasis::CCITJ17
        }
    }

    /// Reads this field from a 32-bit frame header.
    fn parse(header: u32) -> (r: MP3Emphasis)
        ensures
            r == MP3Emphasis::from_id(emphasis_id(header)),
    {
        let id = (header & EMPHASIS_MASK) >> EMPHASIS_OFFSET;
        if id == 0 {
            MP3Emphasis::NoEmphasis
        } else if id == 1 {
            MP3Emphasis::FiftyFifteen
        } else if id == 2 {
            MP3Emphasis::Reserved
        } else {
            MP3Emphasis::CCITJ17
        }
    }
}

/// The first position from `pos` on, and not past `limit`, at which four bytes of `data`
/// start with a frame sync.
pub open spec fn next_sync(data: Seq<u8>, pos: int, limit: int) -> Option<int>
    decreases limit + 1 - pos,
{
    if pos < 0 || pos > limit || pos + 4 > data.len() {
        None
    } else if has_sync(word_at(data, pos)) {
        Some(pos)
    } else {
        next_sync(data, pos + 1, limit)
    }
}

/// The length in bytes of a frame of a fixed bitrate: the floor of
/// 144 * bitrate * 1000 / sample rate, one byte more when padded, and two more when a
/// checksum follows the header.
pub open spec fn fixed_frame_length(
    kbps: u32,
    hz: u32,
    padding: FramePadding,
    crc_protection: CRCProtection,
) -> int {
    (144 * kbps * 1000) / (hz as int) + (if padding is Enabled {
        1int
    } else {
        0int
    }) + crc_protection.checksum_len()
}

/// Another name for `MPEGFrameHeader`.
pub type MP3FrameHeader = MPEGFrameHeader;

/// Another name for `MPEGParseError`, the error of header parsing.
pub type MP3HeaderParseError = MPEGParseError;

/// Another name for `FramePadding`.
pub type Padding = FramePadding;

/// The length of a free-bitrate frame as a header records it: the distance to the next
/// frame sync, when one was found.
pub open spec fn free_length_of(found: Option<int>) -> Option<u32> {
    match found {
        Some(end) => Some(end as u32),
        None => None,
    }
}

/// A decoded MPEG audio frame header.
#[derive(Debug, Clone, Copy, PartialEq, Eq, Structural)]
pub struct MPEGFrameHeader {
    pub raw_header: u32,
    /// For the free bitrate, the length of the frame (header included) up to the next frame
    /// sync after the header, when the data held one within the scan bound (by default
    /// `MAX_FREE_FRAME_LENGTH`). `None` otherwise, and
    /// for a bitrate of the table, whose length follows from the header's fields.
    pub free_frame_length: Option<u32>,
    pub frame_sync: MPEGFrameSync,
    pub version: MPEGVersion,
    pub layer: MPEGLayer,
    pub crc_protection: CRCProtection,
    pub bitrate: FrameBitrate,
    pub sample_rate: SampleRate,
    pub padding: FramePadding,
    pub private_bit: bool,
    pub channel_mode: MP3ChannelMode,
    pub mode_extension: MP3ModeExtension,
    pub copyright: Copyright,
    pub original: Original,
    pub emphasis: MP3Emphasis,
}

impl MPEGFrameHeader {
    /// The header that starts at the beginning of `data`, with the free-bitrate scan bounded
    /// by `MAX_FREE_FRAME_LENGTH`.
    pub open spec fn decode(data: Seq<u8>) -> Result<MPEGFrameHeader, MPEGParseError> {
        MPEGFrameHeader::decode_within(data, MAX_FREE_FRAME_LENGTH as int)
    }

    /// The header that starts at the beginning of `data`, or the first error met when
    /// checking, in order: four bytes present, frame sync, bitrate, sample rate. What lies
    /// past the four header bytes (the checksum, the next frame sync of a free-bitrate
    /// frame) is recorded when it is there and never makes the header fail. A free-bitrate
    /// frame ends at the first frame sync from just past the 4-byte header, no further
    /// than `limit`.
    pub open spec fn decode_within(data: Seq<u8>, limit: int) -> Result<
        MPEGFrameHeader,
        MPEGParseError,
    > {
        if data.len() < 4 {
            Err(MPEGParseError::TruncatedBuffer)
        } else {
            let w = word_at(data, 0);
            if !has_sync(w) {
                Err(MPEGParseError::NoFrameSync)
            } else {
                match FrameBitrate::decode(w) {
                    Err(e) => Err(e),
                    Ok(bitrate) => match SampleRate::decode(w) {
                        Err(e) => Err(e),
                        Ok(sample_rate) => {
                            let crc_protection = CRCProtection::decode(w, data);
                            Ok(
                                MPEGFrameHeader {
                                    raw_header: w,
                                    free_frame_length: if bitrate is Free {
                                        free_length_of(next_sync(data, 4, limit))
                                    } else {
                                        None
                                    },
                                    frame_sync: MPEGFrameSync::Sync,
                                    version: MPEGVersion::from_id(version_id(w)),
                                    layer: MPEGLayer::from_id(layer_id(w)),
                                    crc_protection,
                                    bitrate,
                                    sample_rate,
                                    padding: FramePadding::from_id(padding_bit(w)),
                                    private_bit: private_bit(w) == 1,
                                    channel_mode: MP3ChannelMode::from_id(channel_mode_id(w)),
                                    mode_extension: MP3ModeExtension::from_id(
                                        mode_extension_id(w),
                                    ),
                                    copyright: Copyright::from_id(copyright_bit(w)),
                                    original: Original::from_id(original_id(w)),
                                    emphasis: MP3Emphasis::from_id(emphasis_id(w)),
                                },
                            )
                        },
                    },
                }
            }
        }
    }

    /// The length of the whole frame in bytes, header included: computed from the fields
    /// for a bitrate of the table, the recorded length for the free bitrate.
    pub open spec fn length(self) -> Option<int> {
        match self.bitrate {
            FrameBitrate::Free => match self.free_frame_length {
                Some(len) => Some(len as int),
                None => None,
            },
            FrameBitrate::Bitrate(kbps) => Some(
                fixed_frame_length(kbps, self.sample_rate.hz(), self.padding, self.crc_protection),
            ),
        }
    }

    /// The frame's length when it is known, 0 otherwise.
    pub open spec fn known_length(self) -> int {
        match self.length() {
            Some(len) => len,
            None => 0,
        }
    }

    /// The length of the whole frame in bytes, header included: floor(144 * bitrate * 1000
    /// / sample rate), plus one when padded and two when a checksum follows, for a bitrate
    /// of the table; the recorded length for the free bitrate.
    pub fn frame_length(&self) -> (r: Option<u32>)
        requires
            self.bitrate.is_valid(),
        ensures
            r == (match self.length() {
                Some(len) => Some(len as u32),
                None => None::<u32>,
            }),
            self.bitrate is Bitrate ==> (r matches Some(len) && 96 <= len <= 1443),
    {
        match self.bitrate {
            FrameBitrate::Free => self.free_frame_length,
            FrameBitrate::Bitrate(kbps) => Some(
                fixed_frame_length_of(kbps, self.sample_rate, self.padding, self.crc_protection),
            ),
        }
    }

    /// Parses the frame header at the start of `data`, the bytes of the frame and of what
    /// follows it. Four bytes with the frame sync and no reserved bitrate or sample rate
    /// always give a header; for the free bitrate the length is found by scanning for the
    /// next frame sync.
    pub fn parse(data: &Vec<u8>) -> (r: Result<MPEGFrameHeader, MPEGParseError>)
        ensures
            r == MPEGFrameHeader::decode(data@),
            data@.len() >= 4 && has_sync(word_at(data@, 0)) && bitrate_index(word_at(data@, 0))
                != 15 && sample_rate_index(word_at(data@, 0)) != 3 ==> r is Ok,
            data@.len() >= 4 && has_sync(word_at(data@, 0)) && bitrate_index(word_at(data@, 0))
                == 15 ==> r == Err::<MPEGFrameHeader, MPEGParseError>(
                MPEGParseError::BadFrameBitrate,
            ),
            r matches Ok(h) ==> h.bitrate.is_valid() && (h.length() matches Some(len) ==> 4
                <= len <= MAX_FREE_FRAME_LENGTH),
    {
        Self::parse_slice(data.as_slice())
    }

    /// Parses the frame header at the start of `data`.
    pub fn parse_slice(data: &[u8]) -> (r: Result<MPEGFrameHeader, MPEGParseError>)
        ensures
            r == MPEGFrameHeader::decode(data@),
            data@.len() >= 4 && has_sync(word_at(data@, 0)) && bitrate_index(word_at(data@, 0))
                != 15 && sample_rate_index(word_at(data@, 0)) != 3 ==> r is Ok,
            data@.len() >= 4 && has_sync(word_at(data@, 0)) && bitrate_index(word_at(data@, 0))
                == 15 ==> r == Err::<MPEGFrameHeader, MPEGParseError>(
                MPEGParseError::BadFrameBitrate,
            ),
            r matches Ok(h) ==> h.bitrate.is_valid() && (h.length() matches Some(len) ==> 4
                <= len <= MAX_FREE_FRAME_LENGTH),
    {
        proof {
            lemma_sync_decides_header(data@);
            lemma_frame_length_bounds(data@);
        }
        Self::parse_slice_within(data, MAX_FREE_FRAME_LENGTH)
    }

    /// Parses the frame header at the start of `data`, looking no further than
    /// `max_free_frame_length` bytes from the frame's start for the end of a free-bitrate
    /// frame.
    pub fn parse_with_scan_limit(data: &Vec<u8>, max_free_frame_length: usize) -> (r: Result<
        MPEGFrameHeader,
        MPEGParseError,
    >)
        requires
            max_free_frame_length <= u32::MAX,
        ensures
            r == MPEGFrameHeader::decode_within(data@, max_free_frame_length as int),
            r matches Ok(h) ==> h.bitrate.is_valid() && (h.length() matches Some(len) ==> 4
                <= len && (h.bitrate is Free ==> len <= max_free_frame_length)),
    {
        proof {
            lemma_frame_length_bounds_within(data@, max_free_frame_length as int);
        }
        Self::parse_slice_within(data.as_slice(), max_free_frame_length)
    }

    /// Parses the frame header at the start of `data` with the free-bitrate scan bounded by
    /// `limit`.
    fn parse_slice_within(data: &[u8], limit: usize) -> (r: Result<MPEGFrameHeader, MPEGParseError>)
        requires
            limit <= u32::MAX,
        ensures
            r == MPEGFrameHeader::decode_within(data@, limit as int),
    {
        if data.len() < 4 {
            return Err(MPEGParseError::TruncatedBuffer);
        }
        let raw_header = read_be_u32(data, 0);
        let frame_sync = match MPEGFrameSync::parse(raw_header) {
            Ok(frame_sync) => frame_sync,
            Err(e) => return Err(e),
        };
        let version = match MPEGVersion::parse(raw_header) {
            Ok(version) => version,
            Err(e) => return Err(e),
        };
        let layer = match MPEGLayer::parse(raw_header) {
            Ok(layer) => layer,
            Err(e) => return Err(e),
        };
        let padding = match FramePadding::parse(raw_header) {
            Ok(padding) => padding,
            Err(e) => return Err(e),
        };
        let copyright = match Copyright::parse(raw_header) {
            Ok(copyright) => copyright,
            Err(e) => return Err(e),
        };
        let bitrate = match FrameBitrate::parse(raw_header) {
            Ok(bitrate) => bitrate,
            Err(e) => return Err(e),
        };
        let sample_rate = match SampleRate::parse(raw_header) {
            Ok(sample_rate) => sample_rate,
            Err(e) => return Err(e),
        };
        let crc_protection = match CRCProtection::parse(raw_header, data) {
            Ok(crc_protection) => crc_protection,
            Err(e) => return Err(e),
        };

        let private_bit = (raw_header & PRIVATE_BIT_MASK) >> PRIVATE_BIT_OFFSET;
        let channel_mode = MP3ChannelMode::parse(raw_header);
        let mode_extension = MP3ModeExtension::parse(raw_header);
        let original = Original::parse(raw_header);
        let emphasis = MP3Emphasis::parse(raw_header);

        let free_frame_length = match bitrate {
            FrameBitrate::Free => match find_next_sync(data, limit) {
                Some(end) => Some(end as u32),
                None => None,
            },
            FrameBitrate::Bitrate(_) => None,
        };

        Ok(MPEGFrameHeader {
            raw_header,
            free_frame_length,
            frame_sync,
            version,
            layer,
            crc_protection,
            bitrate,
            sample_rate,
            padding,
            private_bit: private_bit == 1,
            channel_mode,
            mode_extension,
            copyright,
            original,
            emphasis,
        })
    }
}

/// Four or more bytes whose top 11 bits are all set decode as a header unless the bitrate
/// index or the sample-rate index holds its reserved value; the reserved bitrate index 15
/// always fails with `BadFrameBitrate`, and the reserved sample-rate index 3 otherwise with
/// `ReservedSampleRate`. Without the sync the bytes fail with `NoFrameSync`.
pub proof fn lemma_sync_decides_header(data: Seq<u8>)
    ensures
        data.len() >= 4 && !has_sync(word_at(data, 0)) ==> MPEGFrameHeader::decode(data)
            == Err::<MPEGFrameHeader, MPEGParseError>(MPEGParseError::NoFrameSync),
        data.len() >= 4 && has_sync(word_at(data, 0)) && bitrate_index(word_at(data, 0)) != 15
            && sample_rate_index(word_at(data, 0)) != 3 ==> MPEGFrameHeader::decode(data) is Ok,
        data.len() >= 4 && has_sync(word_at(data, 0)) && bitrate_index(word_at(data, 0)) == 15
            ==> MPEGFrameHeader::decode(data) == Err::<MPEGFrameHeader, MPEGParseError>(
            MPEGParseError::BadFrameBitrate,
        ),
        data.len() >= 4 && has_sync(word_at(data, 0)) && bitrate_index(word_at(data, 0)) != 15
            && sample_rate_index(word_at(data, 0)) == 3 ==> MPEGFrameHeader::decode(data)
            == Err::<MPEGFrameHeader, MPEGParseError>(MPEGParseError::ReservedSampleRate),
{
    if data.len() >= 4 {
        let w = word_at(data, 0);
        assert((w & 0x0C00u32) >> 10u32 <= 3 && (w & 0xF000u32) >> 12u32 <= 15) by (bit_vector);
    }
}

/// A sync found by the free-bitrate scan lies between where the scan starts and `limit`.
pub proof fn lemma_next_sync_bounds(data: Seq<u8>, pos: int, limit: int)
    ensures
        next_sync(data, pos, limit) matches Some(p) ==> pos <= p <= limit,
    decreases limit + 1 - pos,
{
    if pos < 0 || pos > limit || pos + 4 > data.len() {
    } else if has_sync(word_at(data, pos)) {
    } else {
        lemma_next_sync_bounds(data, pos + 1, limit);
    }
}

/// A decoded header has a bitrate of the table or the free bitrate, and a frame whose
/// length is known is at least as long as its header and no longer than
/// `MAX_FREE_FRAME_LENGTH`.
pub proof fn lemma_frame_length_bounds(data: Seq<u8>)
    ensures
        MPEGFrameHeader::decode(data) matches Ok(h) ==> h.bitrate.is_valid() && (h.length()
            matches Some(len) ==> 4 <= len <= MAX_FREE_FRAME_LENGTH),
{
    lemma_frame_length_bounds_within(data, MAX_FREE_FRAME_LENGTH as int);
}

/// With the free-bitrate scan bounded by `limit`, a decoded header has a bitrate of the
/// table or the free bitrate, and a frame whose length is known is at least as long as its
/// header; a free-bitrate frame is no longer than `limit`, a frame of the table no longer
/// than 1443 bytes.
pub proof fn lemma_frame_length_bounds_within(data: Seq<u8>, limit: int)
    requires
        limit <= u32::MAX,
    ensures
        MPEGFrameHeader::decode_within(data, limit) matches Ok(h) ==> h.bitrate.is_valid() && (
        h.length() matches Some(len) ==> 4 <= len && (h.bitrate is Free ==> len <= limit) && (
        h.bitrate is Bitrate ==> len <= 1443)),
{
    lemma_next_sync_bounds(data, 4, limit);
    if data.len() >= 4 {
        let w = word_at(data, 0);
        if let Ok(FrameBitrate::Bitrate(kbps)) = FrameBitrate::decode(w) {
            if let Ok(sample_rate) = SampleRate::decode(w) {
                let hz = sample_rate.hz();
                assert(96 <= (144 * kbps * 1000) / (hz as int) <= 1440) by (nonlinear_arith)
                    requires
                        32 <= kbps <= 320,
                        32000 <= hz <= 48000,
                ;
            }
        }
    }
}

/// The length that a header word with a bitrate of the table and a sample rate that is not
/// reserved gives its frame: floor(144 * bitrate * 1000 / sample rate), plus the padding bit,
/// plus two when the protection bit asks for a checksum.
pub open spec fn header_frame_length(header: u32) -> int {
    let hz: int = if sample_rate_index(header) == 0 {
        44100
    } else if sample_rate_index(header) == 1 {
        48000
    } else {
        32000
    };
    (144 * kbps_of_index(bitrate_index(header)) * 1000) / hz + padding_bit(header) as int + (
    if protection_bit(header) == 0 {
        2int
    } else {
        0int
    })
}

/// A synced header word with a bitrate of the table and a sample rate that is not reserved
/// decodes, whatever follows it, to a header of that word whose frame length is
/// `header_frame_length`.
pub proof fn lemma_table_header_length(data: Seq<u8>)
    requires
        data.len() >= 4,
        has_sync(word_at(data, 0)),
        1 <= bitrate_index(word_at(data, 0)) <= 14,
        sample_rate_index(word_at(data, 0)) != 3,
    ensures
        MPEGFrameHeader::decode(data) matches Ok(h) && h.raw_header == word_at(data, 0)
            && h.length() == Some(header_frame_length(word_at(data, 0))),
{
    let w = word_at(data, 0);
    assert((w & 0x0200u32) >> 9u32 <= 1 && (w & 0x0001_0000u32) >> 16u32 <= 1 && (w
        & 0x0C00u32) >> 10u32 <= 3) by (bit_vector);
    let sample_rate = SampleRate::decode(w)->Ok_0;
    let hz: int = if sample_rate_index(w) == 0 {
        44100
    } else if sample_rate_index(w) == 1 {
        48000
    } else {
        32000
    };
    assert(sample_rate.hz() == hz);
    let padding = FramePadding::from_id(padding_bit(w));
    assert((if padding is Enabled {
        1int
    } else {
        0int
    }) == padding_bit(w) as int);
    let crc_protection = CRCProtection::decode(w, data);
    assert(crc_protection.checksum_len() == (if protection_bit(w) == 0 {
        2int
    } else {
        0int
    }));
    let h = MPEGFrameHeader::decode(data)->Ok_0;
    assert(h.length() == Some(
        fixed_frame_length(
            kbps_of_index(bitrate_index(w)),
            sample_rate.hz(),
            padding,
            crc_protection,
        ),
    ));
}

/// The length of a frame of a fixed bitrate from the table.
fn fixed_frame_length_of(
    kbps: u32,
    sample_rate: SampleRate,
    padding: FramePadding,
    crc_protection: CRCProtection,
) -> (r: u32)
    requires
        32 <= kbps <= 320,
    ensures
        r == fixed_frame_length(kbps, sample_rate.hz(), padding, crc_protection),
        4 <= r <= 1443,
{
    let hz: u32 = match sample_rate {
        SampleRate::Hz44100 => 44100,
        SampleRate::Hz48000 => 48000,
        SampleRate::Hz32000 => 32000,
    };
    let padding_len: u32 = match padding {
        FramePadding::Enabled => 1,
        FramePadding::Disabled => 0,
    };
    let checksum_len: u32 = match crc_protection {
        CRCProtection::Disabled => 0,
        _ => 2,
    };
    let bits = 144 * kbps * 1000;
    assert(96 <= bits / hz <= 1440) by (nonlinear_arith)
        requires
            4_608_000 <= bits <= 46_080_000,
            32000 <= hz <= 48000,
    ;
    bits / hz + padding_len + checksum_len
}

/// Scans `data` from just past the 4-byte header for the next frame sync, no further
/// than `limit`.
fn find_next_sync(data: &[u8], limit: usize) -> (r: Option<usize>)
    ensures
        match r {
            Some(end) => next_sync(data@, 4, limit as int) == Some(end as int) && 4 <= end
                <= limit,
            None => next_sync(data@, 4, limit as int) is None,
        },
{
    let len = data.len();
    let mut pos: usize = 4;
    while pos <= limit && pos < len && len - pos >= 4
        invariant
            4 <= pos,
            len == data@.len(),
            next_sync(data@, 4, limit as int) == next_sync(data@, pos as int, limit as int),
        decreases len - pos,
    {
        if MPEGFrameSync::has_frame_sync(&data[pos..pos + 4]) {
            return Some(pos);
        }
        pos = pos + 1;
    }
    None
}

} // verus!
