//! Little-endian decoding of the fixed-width integers that appear in NTFS
//! on-disk structures. All multi-byte integers of the format are
//! little-endian.

use vstd::prelude::*;

verus! {

/// The 16-bit little-endian integer starting at byte `i` of `d`.
pub open spec fn le16(d: Seq<u8>, i: int) -> int {
    d[i] + 0x100 * d[i + 1]
}

/// The 32-bit little-endian integer starting at byte `i` of `d`.
pub open spec fn le32(d: Seq<u8>, i: int) -> int {
    d[i] + 0x100 * d[i + 1] + 0x1_0000 * d[i + 2] + 0x100_0000 * d[i + 3]
}

/// The 64-bit little-endian integer starting at byte `i` of `d`.
pub open spec fn le64(d: Seq<u8>, i: int) -> int {
    le32(d, i) + 0x1_0000_0000 * le32(d, i + 4)
}

/// The value of the 64-bit little-endian field at `i`, reinterpreted as a
/// two's-complement signed quantity.
pub open spec fn le64_signed(d: Seq<u8>, i: int) -> int {
    if le64(d, i) >= 0x8000_0000_0000_0000 {
        le64(d, i) - 0x1_0000_0000_0000_0000
    } else {
        le64(d, i)
    }
}

pub fn read_le_u16(d: &Vec<u8>, pos: usize) -> (r: u16)
    requires
        pos + 2 <= d@.len(),
    ensures
        r == le16(d@, pos as int),
{
    let n: usize = d.len();
    proof {
        assert(pos + 2 <= n);
    }
    let b0: u8 = d[pos];
    let b1: u8 = d[pos + 1];
    b0 as u16 + b1 as u16 * 0x100
}

pub fn read_le_u32(d: &Vec<u8>, pos: usize) -> (r: u32)
    requires
        pos + 4 <= d@.len(),
    ensures
        r == le32(d@, pos as int),
{
    let n: usize = d.len();
    proof {
        assert(pos + 4 <= n);
    }
    let b0: u8 = d[pos];
    let b1: u8 = d[pos + 1];
    let b2: u8 = d[pos + 2];
    let b3: u8 = d[pos + 3];
    b0 as u32 + b1 as u32 * 0x100 + b2 as u32 * 0x1_0000 + b3 as u32 * 0x100_0000
}

pub fn read_le_u64(d: &Vec<u8>, pos: usize) -> (r: u64)
    requires
        pos + 8 <= d@.len(),
    ensures
        r == le64(d@, pos as int),
{
    let n: usize = d.len();
    proof {
        assert(pos + 8 <= n);
    }
    let lo: u32 = read_le_u32(d, pos);
    let hi: u32 = read_le_u32(d, pos + 4);
    lo as u64 + hi as u64 * 0x1_0000_0000
}

pub fn read_le_i64(d: &Vec<u8>, pos: usize) -> (r: i64)
    requires
        pos + 8 <= d@.len(),
    ensures
        r == le64_signed(d@, pos as int),
{
    let raw: u64 = read_le_u64(d, pos);
    if raw >= 0x8000_0000_0000_0000 {
        -((u64::MAX - raw) as i64) - 1
    } else {
        raw as i64
    }
}

} // verus!
