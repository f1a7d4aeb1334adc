//! Little-endian integers inside a byte buffer.

use vstd::prelude::*;

verus! {

/// The unsigned integer that `width` bytes of `s`, starting at `at`, spell
/// with the least significant byte first.
pub open spec fn le_value(s: Seq<u8>, at: int, width: nat) -> nat
    decreases width,
{
    if width == 0 {
        0
    } else {
        s[at] as nat + 256 * le_value(s, at + 1, (width - 1) as nat)
    }
}

/// Whether `width` bytes starting at `at` lie inside a buffer of `len` bytes.
pub open spec fn in_bounds(len: int, at: int, width: int) -> bool {
    0 <= at && at + width <= len
}

/// `le_value` of `width` bytes is below `256^width`.
pub proof fn lemma_le_value_bound(s: Seq<u8>, at: int, width: nat)
    ensures
        width == 2 ==> le_value(s, at, width) < 0x1_0000,
        width == 3 ==> le_value(s, at, width) < 0x100_0000,
        width == 4 ==> le_value(s, at, width) < 0x1_0000_0000,
        width == 8 ==> le_value(s, at, width) < 0x1_0000_0000_0000_0000,
{
    reveal_with_fuel(le_value, 9);
}

/// Converts three bytes, least significant first, to an integer.
pub fn bytes3_to_u32(data: &[u8]) -> (v: u32)
    requires
        data@.len() >= 3,
    ensures
        v == le_value(data@, 0, 3),
        v == data@[0] as nat + 256 * (data@[1] as nat) + 65536 * (data@[2] as nat),
{
    proof {
        reveal_with_fuel(le_value, 4);
    }
    let b0: u32 = data[0] as u32;
    let b1: u32 = data[1] as u32;
    let b2: u32 = data[2] as u32;
    b0 + b1 * 256 + b2 * 65536
}

/// Reads the two-byte little-endian integer at `at`.
pub fn read_u16_le(data: &[u8], at: usize) -> (v: u16)
    requires
        in_bounds(data@.len() as int, at as int, 2),
    ensures
        v == le_value(data@, at as int, 2),
{
    proof {
        reveal_with_fuel(le_value, 3);
    }
    let b0: u16 = data[at] as u16;
    let b1: u16 = data[at + 1] as u16;
    b0 + b1 * 256
}

/// Reads the three-byte little-endian integer at `at`.
pub fn read_u24_le(data: &[u8], at: usize) -> (v: u32)
    requires
        in_bounds(data@.len() as int, at as int, 3),
    ensures
        v == le_value(data@, at as int, 3),
        v < 0x100_0000,
{
    proof {
        reveal_with_fuel(le_value, 4);
    }
    let b0: u32 = data[at] as u32;
    let b1: u32 = data[at + 1] as u32;
    let b2: u32 = data[at + 2] as u32;
    b0 + b1 * 256 + b2 * 65536
}

/// Reads the four-byte little-endian integer at `at`.
pub fn read_u32_le(data: &[u8], at: usize) -> (v: u32)
    requires
        in_bounds(data@.len() as int, at as int, 4),
    ensures
        v == le_value(data@, at as int, 4),
{
    proof {
        reveal_with_fuel(le_value, 5);
    }
    let b0: u32 = data[at] as u32;
    let b1: u32 = data[at + 1] as u32;
    let b2: u32 = data[at + 2] as u32;
    let b3: u32 = data[at + 3] as u32;
    b0 + b1 * 256 + b2 * 65536 + b3 * 16777216
}

/// Reads the eight-byte little-endian integer at `at`.
pub fn read_u64_le(data: &[u8], at: usize) -> (v: u64)
    requires
        in_bounds(data@.len() as int, at as int, 8),
    ensures
        v == le_value(data@, at as int, 8),
{
    proof {
        reveal_with_fuel(le_value, 9);
    }
    let _len: usize = data.len();
    let lo: u64 = read_u32_le(data, at) as u64;
    let hi: u64 = read_u32_le(data, at + 4) as u64;
    proof {
        assert(le_value(data@, at as int, 8) == le_value(data@, at as int, 4) + 0x1_0000_0000
            * le_value(data@, at + 4, 4));
    }
    lo + hi * 0x1_0000_0000
}

} // verus!
