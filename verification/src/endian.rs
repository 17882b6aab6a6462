use vstd::prelude::*;

verus! {

/// The unsigned 16-bit integer stored little-endian at offset `off` of `s`.
pub open spec fn le16(s: Seq<u8>, off: int) -> u16
    recommends
        0 <= off,
        off + 2 <= s.len(),
{
    (s[off] as int + 0x100 * s[off + 1] as int) as u16
}

/// The unsigned 32-bit integer stored little-endian at offset `off` of `s`.
pub open spec fn le32(s: Seq<u8>, off: int) -> u32
    recommends
        0 <= off,
        off + 4 <= s.len(),
{
    (s[off] as int + 0x100 * s[off + 1] as int + 0x1_0000 * s[off + 2] as int + 0x100_0000 * s[
        off + 3
    ] as int) as u32
}

/// Relies on byteorder's `LittleEndian::read_u16`: the two bytes at `off`,
/// least significant first.
#[verifier::external_body]
pub(crate) fn read_le_u16(data: &[u8], off: usize) -> (r: u16)
    requires
        off + 2 <= data@.len(),
    ensures
        r == le16(data@, off as int),
{
    <byteorder::LittleEndian as byteorder::ByteOrder>::read_u16(&data[off..off + 2])
}

/// Relies on byteorder's `LittleEndian::read_u32`: the four bytes at `off`,
/// least significant first.
#[verifier::external_body]
pub(crate) fn read_le_u32(data: &[u8], off: usize) -> (r: u32)
    requires
        off + 4 <= data@.len(),
    ensures
        r == le32(data@, off as int),
{
    <byteorder::LittleEndian as byteorder::ByteOrder>::read_u32(&data[off..off + 4])
}

} // verus!
