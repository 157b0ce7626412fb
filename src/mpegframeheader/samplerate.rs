use vstd::prelude::*;

use crate::mpegparserror::MPEGParseError;

verus! {

pub const SAMPLE_RATE_INDEX_MASK: u32 = 0x0000_0C00;
pub const SAMPLE_RATE_INDEX_MASK_OFFSET: u32 = 10;

/// The two-bit sample-rate index held in bits 10 and 11 of a header word.
pub open spec fn sample_rate_index(header: u32) -> u32 {
    (header & SAMPLE_RATE_INDEX_MASK) >> SAMPLE_RATE_INDEX_MASK_OFFSET
}

/// Represents the sampling rate frequency for the audio in Hz.
/// For most MP3 files this should be 44100Hz.
#[derive(Debug, Clone, Copy, PartialEq, Eq, Structural)]
pub enum SampleRate {
    Hz44100,
    Hz48000,
    Hz32000,
}

impl SampleRate {
    /// The sample rate of a header word, or the error for the reserved index 3.
    pub open spec fn decode(header: u32) -> Result<SampleRate, MPEGParseError> {
        let index = sample_rate_index(header);
        if index == 0 {
            Ok(SampleRate::Hz44100)
        } else if index == 1 {
            Ok(SampleRate::Hz48000)
        } else if index == 2 {
            Ok(SampleRate::Hz32000)
        } else {
            Err(MPEGParseError::ReservedSampleRate)
        }
    }

    /// The frequency in Hz.
    pub open spec fn hz(self) -> u32 {
        match self {
            SampleRate::Hz44100 => 44100,
            SampleRate::Hz48000 => 48000,
            SampleRate::Hz32000 => 32000,
        }
    }

    /// The header bits of this sample rate, in place.
    pub open spec fn bits(self) -> u32 {
        match self {
            SampleRate::Hz44100 => 0,
            SampleRate::Hz48000 => 0x0000_0400,
            SampleRate::Hz32000 => 0x0000_0800,
        }
    }

    /// Given a 32-bit header, parse the sampling rate information.
    /// The sample rate index is stored as bits 10 and 11 and maps to three frequencies;
    /// the fourth index is reserved and is an error.
    pub fn parse(header: u32) -> (r: Result<SampleRate, MPEGParseError>)
        ensures
            r == SampleRate::decode(header),
    {
        let sample_rate_index = (header & SAMPLE_RATE_INDEX_MASK) >> SAMPLE_RATE_INDEX_MASK_OFFSET;
        if sample_rate_index == 0 {
            Ok(SampleRate::Hz44100)
        } else if sample_rate_index == 1 {
            Ok(SampleRate::Hz48000)
        } else if sample_rate_index == 2 {
            Ok(SampleRate::Hz32000)
        } else {
            Err(MPEGParseError::ReservedSampleRate)
        }
    }

    /// Given an existing 32-bit header, a new header is returned with this sampling rate index applied.
    pub fn apply(&self, header: u32) -> (r: u32)
        ensures
            r == (header & !SAMPLE_RATE_INDEX_MASK) | self.bits(),
    {
        let result = header & !SAMPLE_RATE_INDEX_MASK;
        result | match self {
            SampleRate::Hz44100 => 0,
            SampleRate::Hz48000 => 0x0000_0400,
            SampleRate::Hz32000 => 0x0000_0800,
        }
    }

    /// Parsing a header that this sample rate was applied to gives this sample rate back,
    /// and the other bits of the header are left as they were.
    pub proof fn lemma_apply_then_parse(self, header: u32)
        ensures
            SampleRate::decode((header & !SAMPLE_RATE_INDEX_MASK) | self.bits()) == Ok::<
                SampleRate,
                MPEGParseError,
            >(self),
            ((header & !SAMPLE_RATE_INDEX_MASK) | self.bits()) & !SAMPLE_RATE_INDEX_MASK == header
                & !SAMPLE_RATE_INDEX_MASK,
    {
        let h = header;
        assert(((h & !0x0C00u32) | 0u32) & 0x0C00u32 == 0u32 && 0u32 >> 10u32 == 0
            && ((h & !0x0C00u32) | 0u32) & !0x0C00u32 == h & !0x0C00u32
            && ((h & !0x0C00u32) | 0x0400u32) & 0x0C00u32 == 0x0400u32
            && 0x0400u32 >> 10u32 == 1
            && ((h & !0x0C00u32) | 0x0400u32) & !0x0C00u32 == h & !0x0C00u32
            && ((h & !0x0C00u32) | 0x0800u32) & 0x0C00u32 == 0x0800u32
            && 0x0800u32 >> 10u32 == 2
            && ((h & !0x0C00u32) | 0x0800u32) & !0x0C00u32 == h & !0x0C00u32)
            by (bit_vector);
    }
}

} // verus!
