use vstd::prelude::*;

use crate::mpegparserror::MPEGParseError;

verus! {

pub const COPYRIGHT_MASK: u32 = 0x0000_0008;
pub const COPYRIGHT_MASK_OFFSET: u32 = 3;

/// The copyright bit, bit 3 of a header word.
pub open spec fn copyright_bit(header: u32) -> u32 {
    (header & COPYRIGHT_MASK) >> COPYRIGHT_MASK_OFFSET
}

/// The copyright bit from the frame header.
/// This bit is set to 1 if the file is copyright protected.
#[derive(Debug, Clone, Copy, PartialEq, Eq, Structural)]
pub enum Copyright {
    Unprotected,
    Protected,
}

impl Copyright {
    /// The value that an ID stands for.
    pub open spec fn from_id(id: u32) -> Copyright {
        if id == 0 {
            Copyright::Unprotected
        } else {
            Copyright::Protected
        }
    }

    /// The header bits of this value, in place.
    pub open spec fn bits(self) -> u32 {
        match self {
            Copyright::Unprotected => 0,
            Copyright::Protected => 0x0000_0008,
        }
    }

    /// Given a 32-bit frame header, parse the copyright bit.
    pub fn parse(data: u32) -> (r: Result<Copyright, MPEGParseError>)
        ensures
            r == Ok::<Copyright, MPEGParseError>(Copyright::from_id(copyright_bit(data))),
    {
        let id = (data & COPYRIGHT_MASK) >> COPYRIGHT_MASK_OFFSET;
        if id == 0 {
            Ok(Copyright::Unprotected)
        } else {
            Ok(Copyright::Protected)
        }
    }

    /// Returns a new 32-bit frame header with this copyright bit applied.
    pub fn apply(&self, header: u32) -> (r: u32)
        ensures
            r == (header & !COPYRIGHT_MASK) | self.bits(),
    {
        let result = header & !COPYRIGHT_MASK;
        result | match self {
            Copyright::Unprotected => 0,
            Copyright::Protected => 0x0000_0008,
        }
    }

    /// Parsing a header that this value was applied to gives this value back,
    /// and the other bits of the header are left as they were.
    pub proof fn lemma_apply_then_parse(self, header: u32)
        ensures
            Copyright::from_id(copyright_bit((header & !COPYRIGHT_MASK) | self.bits())) == self,
            ((header & !COPYRIGHT_MASK) | self.bits()) & !COPYRIGHT_MASK
                == header & !COPYRIGHT_MASK,
    {
        let h = header;
        assert(((h & !0x0000_0008u32) | 0u32) & 0x0000_0008u32 == 0u32
            && 0u32 >> 3u32 == 0
            && ((h & !0x0000_0008u32) | 0u32) & !0x0000_0008u32 == h & !0x0000_0008u32
            && ((h & !0x0000_0008u32) | 0x0000_0008u32) & 0x0000_0008u32 == 0x0000_0008u32
            && 0x0000_0008u32 >> 3u32 == 1
            && ((h & !0x0000_0008u32) | 0x0000_0008u32) & !0x0000_0008u32 == h & !0x0000_0008u32)
            by (bit_vector);
    }
}

} // verus!
