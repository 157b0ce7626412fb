use vstd::prelude::*;

use crate::bytes::{be_u16, read_be_u16};
use crate::mpegparserror::MPEGParseError;

verus! {

pub const CRC_PROTECTION_MASK: u32 = 0x0001_0000;
pub const CRC_PROTECTION_MASK_OFFSET: u32 = 16;

/// The protection bit, bit 16 of a header word. Its polarity is inverted:
/// 1 means that no checksum follows the header, 0 that one does.
pub open spec fn protection_bit(header: u32) -> u32 {
    (header & CRC_PROTECTION_MASK) >> CRC_PROTECTION_MASK_OFFSET
}

/// An enum that represents the CRC (Cyclic Redundancy Check) protection of the frame.
/// If CRC protection is enabled, a 16-bit big-endian checksum follows the 4-byte frame header.
/// Most files will have CRC protection disabled.
#[derive(Debug, Clone, Copy, PartialEq, Eq, Structural)]
pub enum CRCProtection {
    Disabled,
    Enabled { checksum: u16 },
    /// Protection is enabled, but the data ends before the checksum.
    EnabledChecksumMissing,
}

impl CRCProtection {
    /// The protection of a frame that starts with `header` and whose bytes, header
    /// included, are `frame_data`: the checksum is read from bytes 4 and 5 when they are there.
    pub open spec fn decode(header: u32, frame_data: Seq<u8>) -> CRCProtection {
        if protection_bit(header) == 1 {
            CRCProtection::Disabled
        } else if frame_data.len() < 6 {
            CRCProtection::EnabledChecksumMissing
        } else {
            CRCProtection::Enabled { checksum: be_u16(frame_data[4], frame_data[5]) }
        }
    }

    /// The header bits of this protection, in place.
    pub open spec fn bits(self) -> u32 {
        match self {
            CRCProtection::Disabled => CRC_PROTECTION_MASK,
            CRCProtection::Enabled { .. } => 0,
            CRCProtection::EnabledChecksumMissing => 0,
        }
    }

    /// The number of checksum bytes that follow the header.
    pub open spec fn checksum_len(self) -> u32 {
        match self {
            CRCProtection::Disabled => 0,
            CRCProtection::Enabled { .. } => 2,
            CRCProtection::EnabledChecksumMissing => 2,
        }
    }

    /// Given a 32-bit frame header and the frame's bytes (header included), parse the CRC
    /// protection and checksum. An enabled protection whose checksum lies past the end of
    /// the data is `EnabledChecksumMissing`.
    pub fn parse(header: u32, frame_data: &[u8]) -> (r: Result<CRCProtection, MPEGParseError>)
        ensures
            r == Ok::<CRCProtection, MPEGParseError>(CRCProtection::decode(header, frame_data@)),
    {
        let crc_protection = (header & CRC_PROTECTION_MASK) >> CRC_PROTECTION_MASK_OFFSET;
        if crc_protection == 1 {
            Ok(CRCProtection::Disabled)
        } else if frame_data.len() < 6 {
            Ok(CRCProtection::EnabledChecksumMissing)
        } else {
            let checksum = read_be_u16(frame_data, 4);
            Ok(CRCProtection::Enabled { checksum })
        }
    }

    /// Returns a new 32-bit frame header with the CRC protection bit set.
    /// If the CRC protection is enabled with a checksum, the checksum is stored big-endian in
    /// the first two bytes of `data`, the bytes that follow the frame header.
    pub fn apply(&self, header: u32, data: &mut Vec<u8>) -> (r: u32)
        requires
            *self is Enabled ==> old(data)@.len() >= 2,
        ensures
            r == (header & !CRC_PROTECTION_MASK) | self.bits(),
            match *self {
                CRCProtection::Disabled => final(data)@ == old(data)@,
                CRCProtection::EnabledChecksumMissing => final(data)@ == old(data)@,
                CRCProtection::Enabled { checksum } => final(data)@ == old(data)@.update(
                    0,
                    (checksum >> 8u16) as u8,
                ).update(1, (checksum & 0xFFu16) as u8),
            },
    {
        let result = header & !CRC_PROTECTION_MASK;
        match self {
            CRCProtection::Disabled => result | CRC_PROTECTION_MASK,
            CRCProtection::EnabledChecksumMissing => {
                assert(result | 0u32 == result) by (bit_vector);
                result
            },
            CRCProtection::Enabled { checksum } => {
                let c = *checksum;
                assert(c >> 8u16 < 256 && c & 0xFFu16 < 256) by (bit_vector);
                data.set(0, (c >> 8u16) as u8);
                data.set(1, (c & 0xFFu16) as u8);
                assert(result | 0u32 == result) by (bit_vector);
                result
            },
        }
    }

    /// Parsing a header that this protection was applied to, with the checksum bytes
    /// that `apply` writes (or, for a missing checksum, data too short to hold one), gives
    /// this protection back.
    pub proof fn lemma_apply_then_parse(self, header: u32, frame_data: Seq<u8>)
        requires
            self matches CRCProtection::Enabled { checksum } ==> frame_data.len() >= 6
                && frame_data[4] == (checksum >> 8u16) as u8 && frame_data[5] == (checksum
                & 0xFFu16) as u8,
            self is EnabledChecksumMissing ==> frame_data.len() < 6,
        ensures
            CRCProtection::decode((header & !CRC_PROTECTION_MASK) | self.bits(), frame_data)
                == self,
    {
        let h = header;
        assert(((h & !0x0001_0000u32) | 0x0001_0000u32) & 0x0001_0000u32 == 0x0001_0000u32
            && 0x0001_0000u32 >> 16u32 == 1 && ((h & !0x0001_0000u32) | 0u32) & 0x0001_0000u32
            == 0u32 && 0u32 >> 16u32 == 0) by (bit_vector);
        if let CRCProtection::Enabled { checksum } = self {
            let c = checksum;
            assert(c >> 8u16 < 256 && c & 0xFFu16 < 256) by (bit_vector);
            let hi = (c >> 8u16) as u8;
            let lo = (c & 0xFFu16) as u8;
            assert(((hi as u16) << 8u16) | (lo as u16) == c) by (bit_vector)
                requires
                    hi == (c >> 8u16) as u8,
                    lo == (c & 0xFFu16) as u8,
            ;
        }
    }
}

} // verus!
