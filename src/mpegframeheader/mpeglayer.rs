use vstd::prelude::*;

use crate::mpegparserror::MPEGParseError;

verus! {

pub const LAYER_MASK: u32 = 0x0006_0000;
pub const LAYER_MASK_OFFSET: u32 = 17;

/// The two-bit layer ID held in bits 17 and 18 of a header word.
pub open spec fn layer_id(header: u32) -> u32 {
    (header & LAYER_MASK) >> LAYER_MASK_OFFSET
}

/// The MPEG Layer of the file. Most files will be Layer 3 (hence the designation "MP3").
#[derive(Debug, Clone, Copy, PartialEq, Eq, Structural)]
pub enum MPEGLayer {
    Reserved,
    Layer3,
    Layer2,
    Layer1,
}

impl MPEGLayer {
    /// The layer that a two-bit layer ID stands for.
    pub open spec fn from_id(id: u32) -> MPEGLayer {
        if id == 0 {
            MPEGLayer::Reserved
        } else if id == 1 {
            MPEGLayer::Layer3
        } else if id == 2 {
            MPEGLayer::Layer2
        } else {
            MPEGLayer::Layer1
        }
    }

    /// The header bits of this layer, in place.
    pub open spec fn bits(self) -> u32 {
        match self {
            MPEGLayer::Reserved => 0,
            MPEGLayer::Layer3 => 0x0002_0000,
            MPEGLayer::Layer2 => 0x0004_0000,
            MPEGLayer::Layer1 => 0x0006_0000,
        }
    }

    /// Given a 32-bit frame header, parse the MPEG layer.
    /// The layer ID is extracted from bits 17 and 18 and then mapped to the appropriate MPEGLayer enum.
    pub fn parse(data: u32) -> (r: Result<MPEGLayer, MPEGParseError>)
        ensures
            r == Ok::<MPEGLayer, MPEGParseError>(MPEGLayer::from_id(layer_id(data))),
    {
        let layer_id = (data & LAYER_MASK) >> LAYER_MASK_OFFSET;
        if layer_id == 0 {
            Ok(MPEGLayer::Reserved)
        } else if layer_id == 1 {
            Ok(MPEGLayer::Layer3)
        } else if layer_id == 2 {
            Ok(MPEGLayer::Layer2)
        } else {
            Ok(MPEGLayer::Layer1)
        }
    }

    /// Returns a new 32-bit frame header with this layer applied.
    /// Bits 17 and 18 from the provided header are overridden, and then the appropriate bits for this layer ID applied in the new frame header.
    pub fn apply(&self, header: u32) -> (r: u32)
        ensures
            r == (header & !LAYER_MASK) | self.bits(),
    {
        let result = header & !LAYER_MASK;
        result | match self {
            MPEGLayer::Reserved => 0,
            MPEGLayer::Layer3 => 0x0002_0000,
            MPEGLayer::Layer2 => 0x0004_0000,
            MPEGLayer::Layer1 => 0x0006_0000,
        }
    }

    /// Parsing a header that this layer was applied to gives this layer back,
    /// and the other bits of the header are left as they were.
    pub proof fn lemma_apply_then_parse(self, header: u32)
        ensures
            MPEGLayer::from_id(layer_id((header & !LAYER_MASK) | self.bits())) == self,
            ((header & !LAYER_MASK) | self.bits()) & !LAYER_MASK == header & !LAYER_MASK,
    {
        let h = header;
        assert(((h & !0x0006_0000u32) | 0) & 0x0006_0000u32 == 0
            && ((h & !0x0006_0000u32) | 0x0002_0000u32) & 0x0006_0000u32 == 0x0002_0000u32
            && ((h & !0x0006_0000u32) | 0x0004_0000u32) & 0x0006_0000u32 == 0x0004_0000u32
            && ((h & !0x0006_0000u32) | 0x0006_0000u32) & 0x0006_0000u32 == 0x0006_0000u32
            && 0x0002_0000u32 >> 17u32 == 1 && 0x0004_0000u32 >> 17u32 == 2
            && 0x0006_0000u32 >> 17u32 == 3 && 0u32 >> 17u32 == 0
            && ((h & !0x0006_0000u32) | 0) & !0x0006_0000u32 == h & !0x0006_0000u32
            && ((h & !0x0006_0000u32) | 0x0002_0000u32) & !0x0006_0000u32 == h & !0x0006_0000u32
            && ((h & !0x0006_0000u32) | 0x0004_0000u32) & !0x0006_0000u32 == h & !0x0006_0000u32
            && ((h & !0x0006_0000u32) | 0x0006_0000u32) & !0x0006_0000u32 == h
                & !0x0006_0000u32)
            by (bit_vector);
    }
}

} // verus!
