//! Little-endian integers read from byte buffers.
use vstd::prelude::*;

verus! {

pub open spec fn le16(b: Seq<u8>, o: int) -> int {
    b[o] + b[o + 1] * 256
}

pub open spec fn le32(b: Seq<u8>, o: int) -> int {
    le16(b, o) + le16(b, o + 2) * 65536
}

pub open spec fn le64(b: Seq<u8>, o: int) -> int {
    le32(b, o) + le32(b, o + 4) * 0x1_0000_0000
}

pub fn read_u16(b: &[u8], o: usize) -> (r: u16)
    requires
        o + 2 <= b@.len(),
    ensures
        r == le16(b@, o as int),
{
    (b[o] as u16) + (b[o + 1] as u16) * 256
}

pub fn read_u32(b: &[u8], o: usize) -> (r: u32)
    requires
        o + 4 <= b@.len(),
    ensures
        r == le32(b@, o as int),
{
    let n = b.len();
    let lo = read_u16(b, o);
    let hi = read_u16(b, o + 2);
    (lo as u32) + (hi as u32) * 65536
}

pub fn read_u64(b: &[u8], o: usize) -> (r: u64)
    requires
        o + 8 <= b@.len(),
    ensures
        r == le64(b@, o as int),
{
    let n = b.len();
    let lo = read_u32(b, o);
    let hi = read_u32(b, o + 4);
    (lo as u64) + (hi as u64) * 0x1_0000_0000
}

} // verus!
