use vstd::prelude::*;

use crate::mpegparserror::MPEGParseError;

verus! {

pub const BITRATE_INDEX_MASK: u32 = 0x0000_F000;
pub const BITRATE_INDEX_MASK_OFFSET: u32 = 12;

/// The four-bit bitrate index held in bits 12 to 15 of a header word.
pub open spec fn bitrate_index(header: u32) -> u32 {
    (header & BITRATE_INDEX_MASK) >> BITRATE_INDEX_MASK_OFFSET
}

/// The bitrate in kbps of each index from 1 to 14; 0 elsewhere.
pub open spec fn kbps_of_index(index: u32) -> u32 {
    if index == 1 {
        32
    } else if index == 2 {
        40
    } else if index == 3 {
        48
    } else if index == 4 {
        56
    } else if index == 5 {
        64
    } else if index == 6 {
        80
    } else if index == 7 {
        96
    } else if index == 8 {
        112
    } else if index == 9 {
        128
    } else if index == 10 {
        160
    } else if index == 11 {
        192
    } else if index == 12 {
        224
    } else if index == 13 {
        256
    } else if index == 14 {
        320
    } else {
        0
    }
}

/// The index of a bitrate of the table; the reserved index 15 for any other value.
pub open spec fn index_of_kbps(kbps: u32) -> u32 {
    if kbps == 32 {
        1
    } else if kbps == 40 {
        2
    } else if kbps == 48 {
        3
    } else if kbps == 56 {
        4
    } else if kbps == 64 {
        5
    } else if kbps == 80 {
        6
    } else if kbps == 96 {
        7
    } else if kbps == 112 {
        8
    } else if kbps == 128 {
        9
    } else if kbps == 160 {
        10
    } else if kbps == 192 {
        11
    } else if kbps == 224 {
        12
    } else if kbps == 256 {
        13
    } else if kbps == 320 {
        14
    } else {
        15
    }
}

/// An enum that represents the bitrate of the frame.
/// The bitrate is the number of bits per second of audio, in kbps.
#[derive(Debug, Clone, Copy, PartialEq, Eq, Structural)]
pub enum FrameBitrate {
    Bitrate(u32),
    Free,
}

impl FrameBitrate {
    /// The bitrate of a header word, or the error for the reserved index 15.
    pub open spec fn decode(header: u32) -> Result<FrameBitrate, MPEGParseError> {
        let index = bitrate_index(header);
        if index == 0 {
            Ok(FrameBitrate::Free)
        } else if index < 15 {
            Ok(FrameBitrate::Bitrate(kbps_of_index(index)))
        } else {
            Err(MPEGParseError::BadFrameBitrate)
        }
    }

    /// The index that this bitrate is written with.
    pub open spec fn index(self) -> u32 {
        match self {
            FrameBitrate::Free => 0,
            FrameBitrate::Bitrate(kbps) => index_of_kbps(kbps),
        }
    }

    /// Whether this bitrate is free or one of the table.
    pub open spec fn is_valid(self) -> bool {
        self.index() < 15
    }

    /// Given a 32-bit frame header, parse the bitrate, or fail if the bitrate is invalid.
    /// The bitrate is represented by a 4-bit index into a table of bitrates.
    /// If the index is 0, the bitrate is free.
    /// If the index is 15, the bitrate is bad and will error.
    pub fn parse(data: u32) -> (r: Result<FrameBitrate, MPEGParseError>)
        ensures
            r == FrameBitrate::decode(data),
    {
        let bitrate_index = (data & BITRATE_INDEX_MASK) >> BITRATE_INDEX_MASK_OFFSET;
        if bitrate_index == 0 {
            Ok(FrameBitrate::Free)
        } else if bitrate_index == 1 {
            Ok(FrameBitrate::Bitrate(32))
        } else if bitrate_index == 2 {
            Ok(FrameBitrate::Bitrate(40))
        } else if bitrate_index == 3 {
            Ok(FrameBitrate::Bitrate(48))
        } else if bitrate_index == 4 {
            Ok(FrameBitrate::Bitrate(56))
        } else if bitrate_index == 5 {
            Ok(FrameBitrate::Bitrate(64))
        } else if bitrate_index == 6 {
            Ok(FrameBitrate::Bitrate(80))
        } else if bitrate_index == 7 {
            Ok(FrameBitrate::Bitrate(96))
        } else if bitrate_index == 8 {
            Ok(FrameBitrate::Bitrate(112))
        } else if bitrate_index == 9 {
            Ok(FrameBitrate::Bitrate(128))
        } else if bitrate_index == 10 {
            Ok(FrameBitrate::Bitrate(160))
        } else if bitrate_index == 11 {
            Ok(FrameBitrate::Bitrate(192))
        } else if bitrate_index == 12 {
            Ok(FrameBitrate::Bitrate(224))
        } else if bitrate_index == 13 {
            Ok(FrameBitrate::Bitrate(256))
        } else if bitrate_index == 14 {
            Ok(FrameBitrate::Bitrate(320))
        } else {
            Err(MPEGParseError::BadFrameBitrate)
        }
    }

    /// Returns a new 32-bit frame header with this bitrate's index in bits 12 to 15.
    /// A bitrate that is not in the table is written as the reserved index 15.
    pub fn apply(&self, header: u32) -> (r: u32)
        ensures
            r == (header & !BITRATE_INDEX_MASK) | (self.index() << BITRATE_INDEX_MASK_OFFSET),
    {
        let index: u32 = match self {
            FrameBitrate::Free => 0,
            FrameBitrate::Bitrate(32) => 1,
            FrameBitrate::Bitrate(40) => 2,
            FrameBitrate::Bitrate(48) => 3,
            FrameBitrate::Bitrate(56) => 4,
            FrameBitrate::Bitrate(64) => 5,
            FrameBitrate::Bitrate(80) => 6,
            FrameBitrate::Bitrate(96) => 7,
            FrameBitrate::Bitrate(112) => 8,
            FrameBitrate::Bitrate(128) => 9,
            FrameBitrate::Bitrate(160) => 10,
            FrameBitrate::Bitrate(192) => 11,
            FrameBitrate::Bitrate(224) => 12,
            FrameBitrate::Bitrate(256) => 13,
            FrameBitrate::Bitrate(320) => 14,
            FrameBitrate::Bitrate(_) => 15,
        };
        (header & !BITRATE_INDEX_MASK) | (index << BITRATE_INDEX_MASK_OFFSET)
    }
}

/// Writing an index into bits 12 to 15 and reading it back gives the same index,
/// and the other bits of the header are left as they were.
pub proof fn lemma_index_round_trip(header: u32, index: u32)
    requires
        index < 16,
    ensures
        bitrate_index((header & !BITRATE_INDEX_MASK) | (index << BITRATE_INDEX_MASK_OFFSET))
            == index,
        ((header & !BITRATE_INDEX_MASK) | (index << BITRATE_INDEX_MASK_OFFSET))
            & !BITRATE_INDEX_MASK == header & !BITRATE_INDEX_MASK,
{
    let h = header;
    let i = index;
    assert((((h & !0xF000u32) | (i << 12u32)) & 0xF000u32) >> 12u32 == i && ((h & !0xF000u32) | (
    i << 12u32)) & !0xF000u32 == h & !0xF000u32) by (bit_vector)
        requires
            i < 16u32,
    ;
}

/// Encoding a bitrate of the table (or the free bitrate) into a header and decoding
/// the header gives that bitrate back; a header whose bitrate index is 15 never decodes.
pub proof fn lemma_bitrate_round_trip(bitrate: FrameBitrate, header: u32)
    ensures
        bitrate.is_valid() ==> FrameBitrate::decode(
            (header & !BITRATE_INDEX_MASK) | (bitrate.index() << BITRATE_INDEX_MASK_OFFSET),
        ) == Ok::<FrameBitrate, MPEGParseError>(bitrate),
        bitrate_index(header) == 15 ==> FrameBitrate::decode(header) == Err::<
            FrameBitrate,
            MPEGParseError,
        >(MPEGParseError::BadFrameBitrate),
{
    if bitrate.is_valid() {
        lemma_index_round_trip(header, bitrate.index());
    }
}

} // verus!
