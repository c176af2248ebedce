//! CRC-32 of byte strings, and the four-byte suffix that steers a CRC-32 to a
//! chosen value.

use vstd::prelude::*;

verus! {

/// The standard (IEEE, reflected) CRC-32 of `data`.
pub uninterp spec fn crc32_of(data: Seq<u8>) -> u32;

/// Relies on `crc32fast::hash`: the CRC-32 of the bytes, a function of the bytes alone.
#[verifier::external_body]
pub(crate) fn crc32(data: &[u8]) -> (r: u32)
    ensures
        r == crc32_of(data@),
{
    crc32fast::hash(data)
}

/// The bit-reversed CRC-32 polynomial.
pub const CRC32_POLY: u32 = 0xedb88320;

/// One backward step of the CRC register.
pub open spec fn rev_step(x: u32) -> u32 {
    if x & 0x80000000u32 != 0 {
        ((x ^ CRC32_POLY) << 1u32) | 1u32
    } else {
        x << 1u32
    }
}

/// `n` backward steps of the CRC register, starting from `x`.
pub open spec fn rev_steps(x: u32, n: nat) -> u32
    decreases n,
{
    if n == 0 {
        x
    } else {
        rev_step(rev_steps(x, (n - 1) as nat))
    }
}

/// The backward table entry for the top byte `byte`.
pub open spec fn crc32_rev_spec(byte: u32) -> u32 {
    rev_steps(byte << 24u32, 8)
}

/// One round of the backward run: shifts in byte `i` (most significant first)
/// of the register state `current`.
pub open spec fn patch_round(result: u32, current: u32, i: u32) -> u32 {
    (result << 8u32) ^ crc32_rev_spec(result >> 24u32) ^ ((current >> ((3 - i) * 8) as u32) & 0xffu32)
}

/// The state after the first `n` rounds, starting from the complemented target.
pub open spec fn patch_rounds(current: u32, target: u32, n: nat) -> u32
    decreases n,
{
    if n == 0 {
        !target
    } else {
        patch_round(patch_rounds(current, target, (n - 1) as nat), current, (n - 1) as u32)
    }
}

/// The patch for bytes whose CRC-32 is `crc`, to reach `target`.
pub open spec fn crc32_patch_spec(crc: u32, target: u32) -> u32 {
    patch_rounds(!crc, target, 4)
}

fn crc32_rev(byte: u32) -> (r: u32)
    ensures
        r == crc32_rev_spec(byte),
{
    let mut x: u32 = byte << 24u32;
    let mut i: u32 = 0;
    while i < 8
        invariant
            i <= 8,
            x == rev_steps(byte << 24u32, i as nat),
        decreases 8 - i,
    {
        if x & 0x80000000u32 != 0 {
            x = ((x ^ CRC32_POLY) << 1u32) | 1u32;
        } else {
            x = x << 1u32;
        }
        i += 1;
    }
    x
}

/// The four-byte suffix (as a little-endian word) that brings the CRC-32 of
/// bytes whose CRC-32 is `crc` to `target`.
pub fn crc32_patch_from(crc: u32, target: u32) -> (r: u32)
    ensures
        r == crc32_patch_spec(crc, target),
{
    let current: u32 = !crc;
    let mut result: u32 = !target;
    let mut i: u32 = 0;
    while i < 4
        invariant
            i <= 4,
            current == !crc,
            result == patch_rounds(current, target, i as nat),
        decreases 4 - i,
    {
        result = (result << 8u32) ^ crc32_rev(result >> 24u32) ^ ((current >> ((3 - i) * 8)) & 0xffu32);
        i += 1;
    }
    result
}

/// The four-byte suffix (as a little-endian word) that brings the CRC-32 of
/// `data` followed by it to `target`.
pub fn crc32_patch(data: &[u8], target: u32) -> (r: u32)
    ensures
        r == crc32_patch_spec(crc32_of(data@), target),
{
    let crc = crc32(data);
    crc32_patch_from(crc, target)
}

} // verus!
