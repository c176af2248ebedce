//! Mutations of raw bytes.

use crate::rng::{below, rand_len, random_bool, random_bytes, random_u8};
use rand::rngs::ThreadRng;
use vstd::prelude::*;

verus! {

/// The byte-level mutation operators.
#[derive(Clone, Copy, Debug, PartialEq, Eq, Structural)]
pub enum BytesMutation {
    ModifyByte,
    FlipBit,
    InsertBytes,
    DeleteBytes,
    DuplicateBytes,
    SpliceBytes,
}

/// What operator `m` may have done to `old`, giving `new` and reporting `r`:
/// nothing when it reports `false` (which it does only on empty input, for
/// the operators that need a byte to work on), else the edit it names.
pub open spec fn bytes_outcome(m: BytesMutation, old: Seq<u8>, new: Seq<u8>, r: bool) -> bool {
    &&& (!r ==> new == old)
    &&& (old.len() > 0 || m == BytesMutation::InsertBytes || m == BytesMutation::DuplicateBytes
        || m == BytesMutation::SpliceBytes ==> r)
    &&& (m == BytesMutation::ModifyByte && r ==> exists|i: int, b: u8|
        0 <= i < old.len() && new == #[trigger] old.update(i, b))
    &&& (m == BytesMutation::FlipBit && r ==> exists|i: int, k: u8|
        0 <= i < old.len() && k < 8 && new == #[trigger] old.update(i, old[i] ^ (1u8 << k)))
    &&& (m == BytesMutation::InsertBytes ==> exists|i: int, ins: Seq<u8>|
        0 <= i <= old.len() && 1 <= ins.len() <= 65
        && new == #[trigger] (old.subrange(0, i) + ins) + old.subrange(i, old.len() as int))
    &&& (m == BytesMutation::DeleteBytes && r ==> exists|i: int, j: int|
        0 <= i < j <= old.len() && j - i <= 65
        && new == #[trigger] old.subrange(0, i) + #[trigger] old.subrange(j, old.len() as int))
    &&& (m == BytesMutation::DuplicateBytes ==> exists|a: int, b: int|
        0 <= a <= b <= old.len()
        && new == #[trigger] old.subrange(0, b) + #[trigger] old.subrange(a, b) + old.subrange(b, old.len() as int))
    &&& (m == BytesMutation::SpliceBytes ==> exists|a: int, b: int, c: int, d: int|
        0 <= a <= b <= old.len() && 0 <= c <= d <= old.len()
        && new == #[trigger] old.subrange(0, c) + #[trigger] old.subrange(a, b) + #[trigger] old.subrange(d, old.len() as int))
}

/// The byte operators in arm order.
pub open spec fn bytes_mutation_order() -> Seq<BytesMutation> {
    seq![
        BytesMutation::ModifyByte,
        BytesMutation::FlipBit,
        BytesMutation::InsertBytes,
        BytesMutation::DeleteBytes,
        BytesMutation::DuplicateBytes,
        BytesMutation::SpliceBytes,
    ]
}

/// Every byte operator, in arm order.
pub fn bytes_mutations() -> (r: Vec<BytesMutation>)
    ensures
        r@ == bytes_mutation_order(),
{
    let mut r: Vec<BytesMutation> = Vec::new();
    r.push(BytesMutation::ModifyByte);
    r.push(BytesMutation::FlipBit);
    r.push(BytesMutation::InsertBytes);
    r.push(BytesMutation::DeleteBytes);
    r.push(BytesMutation::DuplicateBytes);
    r.push(BytesMutation::SpliceBytes);
    assert(r@ =~= bytes_mutation_order());
    r
}

impl BytesMutation {
    pub fn name(&self) -> &'static str {
        match self {
            BytesMutation::ModifyByte => "ModifyByte",
            BytesMutation::FlipBit => "FlipBit",
            BytesMutation::InsertBytes => "InsertBytes",
            BytesMutation::DeleteBytes => "DeleteBytes",
            BytesMutation::DuplicateBytes => "DuplicateBytes",
            BytesMutation::SpliceBytes => "SpliceBytes",
        }
    }

    /// Applies the operator to `bytes`; `false` (with `bytes` unchanged) where
    /// it has nothing to work on.
    pub fn mutate(&self, bytes: &mut Vec<u8>, rng: &mut ThreadRng) -> (r: bool)
        requires
            old(bytes)@.len() < usize::MAX,
        ensures
            bytes_outcome(*self, old(bytes)@, final(bytes)@, r),
    {
        let n = bytes.len();
        match self {
            BytesMutation::ModifyByte => {
                if n == 0 {
                    return false;
                }
                let i = below(rng, n);
                let b = random_u8(rng);
                bytes.set(i, b);
                true
            },
            BytesMutation::FlipBit => {
                if n == 0 {
                    return false;
                }
                let i = below(rng, n);
                let k = below(rng, 8) as u8;
                let b = bytes[i] ^ (1u8 << k);
                bytes.set(i, b);
                true
            },
            BytesMutation::InsertBytes => {
                let len = rand_len(rng);
                let i = below(rng, n + 1);
                let ins = random_bytes(rng, len);
                let out = splice(bytes, i, i, &ins);
                *bytes = out;
                true
            },
            BytesMutation::DeleteBytes => {
                if n == 0 {
                    return false;
                }
                let l = rand_len(rng);
                let len = if l < n { l } else { n };
                let i = below(rng, n - len + 1);
                let empty: Vec<u8> = Vec::new();
                let out = splice(bytes, i, i + len, &empty);
                assert(out@ =~= old(bytes)@.subrange(0, i as int) + old(bytes)@.subrange(i + len, n as int));
                assert(0 <= i < i + len <= n && len <= 65);
                *bytes = out;
                true
            },
            BytesMutation::DuplicateBytes => {
                let (a, b) = rand_range(rng, n + 1);
                let src = copy_range(bytes, a, b);
                let out = splice(bytes, b, b, &src);
                assert(out@ =~= old(bytes)@.subrange(0, b as int) + old(bytes)@.subrange(a as int, b as int)
                    + old(bytes)@.subrange(b as int, n as int));
                *bytes = out;
                true
            },
            BytesMutation::SpliceBytes => {
                let (a, b) = rand_range(rng, n + 1);
                let src = copy_range(bytes, a, b);
                let (c, d) = rand_range(rng, n + 1);
                let out = splice(bytes, c, d, &src);
                *bytes = out;
                true
            },
        }
    }
}

/// Two positions below `n`, the smaller first.
pub fn rand_range(rng: &mut ThreadRng, n: usize) -> (r: (usize, usize))
    requires
        n > 0,
    ensures
        r.0 <= r.1 < n,
{
    let x = below(rng, n);
    let y = below(rng, n);
    if x < y {
        (x, y)
    } else {
        (y, x)
    }
}

/// The bytes of `v` from `a` up to `b`.
pub fn copy_range(v: &Vec<u8>, a: usize, b: usize) -> (r: Vec<u8>)
    requires
        a <= b <= v@.len(),
    ensures
        r@ == v@.subrange(a as int, b as int),
{
    let mut r: Vec<u8> = Vec::new();
    let mut k: usize = a;
    while k < b
        invariant
            a <= k <= b <= v@.len(),
            r@ == v@.subrange(a as int, k as int),
        decreases b - k,
    {
        r.push(v[k]);
        k += 1;
        assert(r@ =~= v@.subrange(a as int, k as int));
    }
    r
}

/// `v` with the bytes from `a` up to `b` replaced by `ins`.
pub fn splice(v: &Vec<u8>, a: usize, b: usize, ins: &Vec<u8>) -> (r: Vec<u8>)
    requires
        a <= b <= v@.len(),
    ensures
        r@ == v@.subrange(0, a as int) + ins@ + v@.subrange(b as int, v@.len() as int),
{
    let mut r = copy_range(v, 0, a);
    crate::le::push_bytes(&mut r, ins.as_slice());
    let tail = copy_range(v, b, v.len());
    crate::le::push_bytes(&mut r, tail.as_slice());
    r
}

} // verus!
