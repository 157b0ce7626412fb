use vstd::prelude::*;

use crate::mpegparserror::MPEGParseError;

verus! {

pub const MPEG_VERSION_ID_MASK: u32 = 0x0018_0000;
pub const MPEG_VERSION_ID_MASK_OFFSET: u32 = 19;

/// The two-bit version ID held in bits 19 and 20 of a header word.
pub open spec fn version_id(header: u32) -> u32 {
    (header & MPEG_VERSION_ID_MASK) >> MPEG_VERSION_ID_MASK_OFFSET
}

/// The MPEG Version of the file. Most files will be MPEG Version 1.
#[derive(Debug, Clone, Copy, PartialEq, Eq, Structural)]
pub enum MPEGVersion {
    Version1,
    Version2,
    Version2_5,
    VersionReserved,
}

impl MPEGVersion {
    /// The value that an ID stands for.
    pub open spec fn from_id(id: u32) -> MPEGVersion {
        if id == 0 {
            MPEGVersion::Version2_5
        } else if id == 1 {
            MPEGVersion::VersionReserved
        } else if id == 2 {
            MPEGVersion::Version2
        } else {
            MPEGVersion::Version1
        }
    }

    /// The header bits of this value, in place.
    pub open spec fn bits(self) -> u32 {
        match self {
            MPEGVersion::Version1 => 0x0018_0000,
            MPEGVersion::Version2 => 0x0010_0000,
            MPEGVersion::Version2_5 => 0,
            MPEGVersion::VersionReserved => 0x0008_0000,
        }
    }

    /// Given a 32-bit frame header, parse the MPEG version.
    /// The version ID is extracted from bits 19 and 20 and then mapped to the appropriate MPEGVersion enum.
    pub fn parse(data: u32) -> (r: Result<MPEGVersion, MPEGParseError>)
        ensures
            r == Ok::<MPEGVersion, MPEGParseError>(MPEGVersion::from_id(version_id(data))),
    {
        let id = (data & MPEG_VERSION_ID_MASK) >> MPEG_VERSION_ID_MASK_OFFSET;
        if id == 0 {
            Ok(MPEGVersion::Version2_5)
        } else if id == 1 {
            Ok(MPEGVersion::VersionReserved)
        } else if id == 2 {
            Ok(MPEGVersion::Version2)
        } else {
            Ok(MPEGVersion::Version1)
        }
    }

    /// Returns a new 32-bit frame header with this version applied.
    /// Bits 19 and 20 from the provided header are overridden, and then the appropriate bits for this version ID applied in the new frame header.
    pub fn apply(&self, header: u32) -> (r: u32)
        ensures
            r == (header & !MPEG_VERSION_ID_MASK) | self.bits(),
    {
        let result = header & !MPEG_VERSION_ID_MASK;
        result | match self {
            MPEGVersion::Version1 => 0x0018_0000,
            MPEGVersion::Version2 => 0x0010_0000,
            MPEGVersion::Version2_5 => 0,
            MPEGVersion::VersionReserved => 0x0008_0000,
        }
    }

    /// Parsing a header that this value was applied to gives this value back,
    /// and the other bits of the header are left as they were.
    pub proof fn lemma_apply_then_parse(self, header: u32)
        ensures
            MPEGVersion::from_id(version_id((header & !MPEG_VERSION_ID_MASK) | self.bits()))
                == self,
            ((header & !MPEG_VERSION_ID_MASK) | self.bits()) & !MPEG_VERSION_ID_MASK
                == header & !MPEG_VERSION_ID_MASK,
    {
        let h = header;
        assert(((h & !0x0018_0000u32) | 0u32) & 0x0018_0000u32 == 0u32
            && 0u32 >> 19u32 == 0
            && ((h & !0x0018_0000u32) | 0u32) & !0x0018_0000u32 == h & !0x0018_0000u32
            && ((h & !0x0018_0000u32) | 0x0008_0000u32) & 0x0018_0000u32 == 0x0008_0000u32
            && 0x0008_0000u32 >> 19u32 == 1
            && ((h & !0x0018_0000u32) | 0x0008_0000u32) & !0x0018_0000u32 == h & !0x0018_0000u32
            && ((h & !0x0018_0000u32) | 0x0010_0000u32) & 0x0018_0000u32 == 0x0010_0000u32
            && 0x0010_0000u32 >> 19u32 == 2
            && ((h & !0x0018_0000u32) | 0x0010_0000u32) & !0x0018_0000u32 == h & !0x0018_0000u32
            && ((h & !0x0018_0000u32) | 0x0018_0000u32) & 0x0018_0000u32 == 0x0018_0000u32
            && 0x0018_0000u32 >> 19u32 == 3
            && ((h & !0x0018_0000u32) | 0x0018_0000u32) & !0x0018_0000u32 == h & !0x0018_0000u32)
            by (bit_vector);
    }
}

} // verus!
