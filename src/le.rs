//! Little-endian encoding of fixed-width integers.

use vstd::prelude::*;

verus! {

/// The two bytes of `x`, least significant first.
#[verifier::opaque]
pub open spec fn le16(x: u16) -> Seq<u8> {
    seq![(x % 256) as u8, (x / 256) as u8]
}

/// The four bytes of `x`, least significant first.
#[verifier::opaque]
pub open spec fn le32(x: u32) -> Seq<u8> {
    seq![
        (x % 256) as u8,
        ((x / 256) % 256) as u8,
        ((x / 65536) % 256) as u8,
        (x / 16777216) as u8,
    ]
}

/// The eight bytes of `x`, least significant first.
#[verifier::opaque]
pub open spec fn le64(x: u64) -> Seq<u8> {
    le32((x % 4294967296) as u32) + le32((x / 4294967296) as u32)
}

pub broadcast proof fn lemma_le16_len(x: u16)
    ensures
        #[trigger] le16(x).len() == 2,
{
    reveal(le16);
}

pub broadcast proof fn lemma_le32_len(x: u32)
    ensures
        #[trigger] le32(x).len() == 4,
{
    reveal(le32);
}

pub broadcast proof fn lemma_le64_len(x: u64)
    ensures
        #[trigger] le64(x).len() == 8,
{
    reveal(le64);
    reveal(le32);
}

pub broadcast group group_le_lengths {
    lemma_le16_len,
    lemma_le32_len,
    lemma_le64_len,
}

pub fn push_u8(out: &mut Vec<u8>, x: u8)
    ensures
        final(out)@ == old(out)@ + seq![x],
{
    out.push(x);
}

pub fn push_u16(out: &mut Vec<u8>, x: u16)
    ensures
        final(out)@ == old(out)@ + le16(x),
{
    out.push((x % 256) as u8);
    out.push((x / 256) as u8);
    reveal(le16);
    assert(final(out)@ =~= old(out)@ + le16(x));
}

pub fn push_u32(out: &mut Vec<u8>, x: u32)
    ensures
        final(out)@ == old(out)@ + le32(x),
{
    out.push((x % 256) as u8);
    out.push(((x / 256) % 256) as u8);
    out.push(((x / 65536) % 256) as u8);
    out.push((x / 16777216) as u8);
    reveal(le32);
    assert(final(out)@ =~= old(out)@ + le32(x));
}

pub fn push_u64(out: &mut Vec<u8>, x: u64)
    ensures
        final(out)@ == old(out)@ + le64(x),
{
    push_u32(out, (x % 4294967296) as u32);
    push_u32(out, (x / 4294967296) as u32);
    reveal(le64);
    reveal(le32);
    assert(final(out)@ =~= old(out)@ + le64(x));
}

/// Appends `bytes` to `out`.
pub fn push_bytes(out: &mut Vec<u8>, bytes: &[u8])
    ensures
        final(out)@ == old(out)@ + bytes@,
{
    let mut i: usize = 0;
    while i < bytes.len()
        invariant
            i <= bytes@.len(),
            out@ == old(out)@ + bytes@.subrange(0, i as int),
        decreases bytes@.len() - i,
    {
        out.push(bytes[i]);
        i += 1;
        assert(out@ =~= old(out)@ + bytes@.subrange(0, i as int));
    }
    assert(bytes@.subrange(0, bytes@.len() as int) =~= bytes@);
}

} // verus!

verus! {

/// A fresh vector holding `bytes`.
pub fn bytes_to_vec(bytes: &[u8]) -> (r: Vec<u8>)
    ensures
        r@ == bytes@,
{
    let mut r: Vec<u8> = Vec::new();
    push_bytes(&mut r, bytes);
    assert(r@ =~= bytes@);
    r
}

} // verus!
