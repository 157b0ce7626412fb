use vstd::prelude::*;

use crate::bytes::{be_u32, read_be_u32};
use crate::mpegparserror::MPEGParseError;

verus! {

/// The eleven leading bits that every frame header has set.
pub const FRAME_SYNC_MASK: u32 = 0xFFE0_0000;

/// Whether the top 11 bits of a header word are all 1.
pub open spec fn has_sync(header: u32) -> bool {
    header & FRAME_SYNC_MASK == FRAME_SYNC_MASK
}

/// An enum that represents the MPEG frame sync.
/// This is an 11-bit sequence of 1s that indicates the start of a frame.
#[derive(Debug, Clone, Copy, PartialEq, Eq, Structural)]
pub enum MPEGFrameSync {
    Sync,
}

impl MPEGFrameSync {
    /// Given a 32-bit frame header, parse the MPEG frame sync, or fail if the frame sync is not found.
    pub fn parse(data: u32) -> (r: Result<MPEGFrameSync, MPEGParseError>)
        ensures
            r == (if has_sync(data) {
                Ok::<MPEGFrameSync, MPEGParseError>(MPEGFrameSync::Sync)
            } else {
                Err(MPEGParseError::NoFrameSync)
            }),
    {
        if (data & FRAME_SYNC_MASK) != FRAME_SYNC_MASK {
            return Err(MPEGParseError::NoFrameSync);
        }
        Ok(MPEGFrameSync::Sync)
    }

    /// Returns a new 32-bit frame header with the frame sync bits set.
    pub fn apply(&self, header: u32) -> (r: u32)
        ensures
            r == (header & !FRAME_SYNC_MASK) | FRAME_SYNC_MASK,
            has_sync(r),
            r & !FRAME_SYNC_MASK == header & !FRAME_SYNC_MASK,
    {
        let r = (header & !FRAME_SYNC_MASK) | FRAME_SYNC_MASK;
        assert(has_sync(r) && r & !FRAME_SYNC_MASK == header & !FRAME_SYNC_MASK) by (bit_vector)
            requires
                r == (header & !0xFFE0_0000u32) | 0xFFE0_0000u32,
        ;
        r
    }

    /// Whether `data` holds at least four bytes and they start with a frame sync.
    pub fn has_frame_sync(data: &[u8]) -> (r: bool)
        ensures
            r == (data@.len() >= 4 && has_sync(be_u32(data@[0], data@[1], data@[2], data@[3]))),
    {
        if data.len() < 4 {
            return false;
        }
        let header = read_be_u32(data, 0);
        (header & FRAME_SYNC_MASK) == FRAME_SYNC_MASK
    }
}

} // verus!
