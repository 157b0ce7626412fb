use vstd::prelude::*;

verus! {

/// The big-endian 32-bit word made of four bytes, most significant first.
pub open spec fn be_u32(b0: u8, b1: u8, b2: u8, b3: u8) -> u32 {
    ((b0 as u32) << 24u32) | ((b1 as u32) << 16u32) | ((b2 as u32) << 8u32) | (b3 as u32)
}

/// The big-endian 16-bit value made of two bytes, most significant first.
pub open spec fn be_u16(b0: u8, b1: u8) -> u16 {
    ((b0 as u16) << 8u16) | (b1 as u16)
}

/// The big-endian word that starts at `pos` in `data`.
pub open spec fn word_at(data: Seq<u8>, pos: int) -> u32
    recommends
        0 <= pos,
        pos + 4 <= data.len(),
{
    be_u32(data[pos], data[pos + 1], data[pos + 2], data[pos + 3])
}

/// Reads the big-endian 32-bit word at `pos`.
pub fn read_be_u32(data: &[u8], pos: usize) -> (r: u32)
    requires
        pos + 4 <= data@.len(),
    ensures
        r == word_at(data@, pos as int),
{
    let len = data.len();
    assert(pos + 4 <= len);
    ((data[pos] as u32) << 24u32) | ((data[pos + 1] as u32) << 16u32) | ((data[pos + 2] as u32)
        << 8u32) | (data[pos + 3] as u32)
}

/// Reads the big-endian 16-bit value at `pos`.
pub fn read_be_u16(data: &[u8], pos: usize) -> (r: u16)
    requires
        pos + 2 <= data@.len(),
    ensures
        r == be_u16(data@[pos as int], data@[pos + 1]),
{
    let len = data.len();
    assert(pos + 2 <= len);
    ((data[pos] as u16) << 8u16) | (data[pos + 1] as u16)
}

} // verus!
