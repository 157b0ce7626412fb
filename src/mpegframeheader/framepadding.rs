use vstd::prelude::*;

use crate::mpegparserror::MPEGParseError;

verus! {

pub const PADDING_MASK: u32 = 0x0000_0200;
pub const PADDING_MASK_OFFSET: u32 = 9;

/// The padding bit, bit 9 of a header word.
pub open spec fn padding_bit(header: u32) -> u32 {
    (header & PADDING_MASK) >> PADDING_MASK_OFFSET
}

/// An enum that represents the padding of the frame.
/// If padding is enabled, the frame is padded with an extra byte at the end.
#[derive(Debug, Clone, Copy, PartialEq, Eq, Structural)]
pub enum FramePadding {
    Enabled,
    Disabled,
}

impl FramePadding {
    /// The value that an ID stands for.
    pub open spec fn from_id(id: u32) -> FramePadding {
        if id == 0 {
            FramePadding::Disabled
        } else {
            FramePadding::Enabled
        }
    }

    /// The header bits of this value, in place.
    pub open spec fn bits(self) -> u32 {
        match self {
            FramePadding::Enabled => 0x0000_0200,
            FramePadding::Disabled => 0,
        }
    }

    /// Given a 32-bit frame header, parse the padding bit.
    pub fn parse(data: u32) -> (r: Result<FramePadding, MPEGParseError>)
        ensures
            r == Ok::<FramePadding, MPEGParseError>(FramePadding::from_id(padding_bit(data))),
    {
        let id = (data & PADDING_MASK) >> PADDING_MASK_OFFSET;
        if id == 0 {
            Ok(FramePadding::Disabled)
        } else {
            Ok(FramePadding::Enabled)
        }
    }

    /// Returns a new 32-bit frame header with this padding applied.
    pub fn apply(&self, header: u32) -> (r: u32)
        ensures
            r == (header & !PADDING_MASK) | self.bits(),
    {
        let result = header & !PADDING_MASK;
        result | match self {
            FramePadding::Enabled => 0x0000_0200,
            FramePadding::Disabled => 0,
        }
    }

    /// Parsing a header that this value was applied to gives this value back,
    /// and the other bits of the header are left as they were.
    pub proof fn lemma_apply_then_parse(self, header: u32)
        ensures
            FramePadding::from_id(padding_bit((header & !PADDING_MASK) | self.bits())) == self,
            ((header & !PADDING_MASK) | self.bits()) & !PADDING_MASK == header & !PADDING_MASK,
    {
        let h = header;
        assert(((h & !0x0000_0200u32) | 0u32) & 0x0000_0200u32 == 0u32
            && 0u32 >> 9u32 == 0
            && ((h & !0x0000_0200u32) | 0u32) & !0x0000_0200u32 == h & !0x0000_0200u32
            && ((h & !0x0000_0200u32) | 0x0000_0200u32) & 0x0000_0200u32 == 0x0000_0200u32
            && 0x0000_0200u32 >> 9u32 == 1
            && ((h & !0x0000_0200u32) | 0x0000_0200u32) & !0x0000_0200u32 == h & !0x0000_0200u32)
            by (bit_vector);
    }
}

} // verus!
