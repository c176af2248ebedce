//! Random draws for the mutation engine. The generator is the thread-local
//! one of `rand`; nothing is promised of the values it gives beyond their
//! ranges.

use rand::distributions::{DistString, Standard};
use rand::rngs::ThreadRng;
use rand::{Rng, RngCore};
use vstd::prelude::*;

verus! {

#[verifier::external_type_specification]
#[verifier::external_body]
pub struct ExThreadRng(ThreadRng);

/// Relies on `RngCore::next_u64`: any 64-bit value.
#[verifier::external_body]
pub(crate) fn next_u64(rng: &mut ThreadRng) -> (r: u64) {
    rng.next_u64()
}

/// Relies on `Rng::gen_range` over `0..n`, which panics on an empty range: a
/// value below `n`.
#[verifier::external_body]
pub(crate) fn below(rng: &mut ThreadRng, n: usize) -> (r: usize)
    requires
        n > 0,
    ensures
        r < n,
{
    rng.gen_range(0..n)
}

/// Relies on `DistString::sample_string` of the `Standard` distribution: a
/// string of `len` random characters.
#[verifier::external_body]
pub(crate) fn random_string(rng: &mut ThreadRng, len: usize) -> (r: String)
    requires
        len <= 0xffff,
    ensures
        r@.len() == len,
{
    Standard.sample_string(rng, len)
}

/// Relies on `Rng::gen::<bool>`: either value.
#[verifier::external_body]
pub(crate) fn random_bool(rng: &mut ThreadRng) -> bool {
    rng.gen::<bool>()
}

/// Relies on `Rng::gen::<u8>`: any byte.
#[verifier::external_body]
pub(crate) fn random_u8(rng: &mut ThreadRng) -> u8 {
    rng.gen::<u8>()
}

/// Relies on `Rng::gen::<u16>`: any 16-bit value.
#[verifier::external_body]
pub(crate) fn random_u16(rng: &mut ThreadRng) -> u16 {
    rng.gen::<u16>()
}

/// Relies on `Rng::gen::<u32>`: any 32-bit value.
#[verifier::external_body]
pub(crate) fn random_u32(rng: &mut ThreadRng) -> u32 {
    rng.gen::<u32>()
}

/// Relies on `Rng::gen_ratio`, which panics unless `0 < den` and
/// `num <= den`: true with probability `num / den`.
#[verifier::external_body]
pub(crate) fn ratio(rng: &mut ThreadRng, num: u32, den: u32) -> bool
    requires
        0 < den,
        num <= den,
{
    rng.gen_ratio(num, den)
}

/// `n` random bytes.
pub fn random_bytes(rng: &mut ThreadRng, n: usize) -> (r: Vec<u8>)
    ensures
        r@.len() == n,
{
    let mut r: Vec<u8> = Vec::new();
    let mut i: usize = 0;
    while i < n
        invariant
            i <= n,
            r@.len() == i,
        decreases n - i,
    {
        r.push(random_u8(rng));
        i += 1;
    }
    r
}

/// The number of trailing zero bits of `x`, and 64 for zero.
pub open spec fn trailing_zeros(x: u64) -> nat {
    tz_from(x, 0)
}

pub open spec fn tz_from(x: u64, k: nat) -> nat
    decreases 64 - k as int,
{
    if k >= 64 {
        64
    } else if (x as int / pow2(k) as int) % 2 == 1 {
        k
    } else {
        tz_from(x, k + 1)
    }
}

pub open spec fn pow2(k: nat) -> nat
    decreases k,
{
    if k == 0 {
        1
    } else {
        2 * pow2((k - 1) as nat)
    }
}

/// One more than the trailing zeros of `x`: `k` has probability `2^-k`
/// when `x` is uniform.
pub fn len_from_bits(x: u64) -> (r: usize)
    ensures
        r == trailing_zeros(x) + 1,
        1 <= r <= 65,
{
    let mut y: u64 = x;
    let mut k: usize = 0;
    assert(pow2(0) == 1);
    while k < 64 && y % 2 == 0
        invariant
            k <= 64,
            y as int == x as int / pow2(k as nat) as int,
            tz_from(x, 0) == tz_from(x, k as nat),
        decreases 64 - k,
    {
        proof {
            assert(pow2((k + 1) as nat) == 2 * pow2(k as nat));
            assert(pow2(k as nat) > 0) by {
                lemma_pow2_pos(k as nat);
            }
            vstd::arithmetic::div_mod::lemma_div_denominator(x as int, pow2(k as nat) as int, 2);
        }
        y = y / 2;
        k += 1;
    }
    k + 1
}

proof fn lemma_pow2_pos(k: nat)
    ensures
        pow2(k) > 0,
    decreases k,
{
    if k > 0 {
        lemma_pow2_pos((k - 1) as nat);
    }
}

/// A length from 1 to 65, `k` with probability `2^-k`: small mutations
/// dominate, any length stays reachable.
pub fn rand_len(rng: &mut ThreadRng) -> (r: usize)
    ensures
        1 <= r <= 65,
{
    len_from_bits(next_u64(rng))
}

} // verus!
