//! The feature vector of a sample: which parsers produced output, and which
//! pairs of parsers disagreed about it.

use crate::fingerprint::{inconsistent, ParsingResult};
use fixedbitset::FixedBitSet;
use vstd::prelude::*;

verus! {

#[verifier::external_type_specification]
#[verifier::external_body]
pub struct ExFixedBitSet(FixedBitSet);

/// The bits of `b`, one per position up to its length.
pub uninterp spec fn bits_of(b: FixedBitSet) -> Seq<bool>;

/// Relies on `FixedBitSet`'s `Clone`: the copy holds the same bits.
pub assume_specification[ <FixedBitSet as Clone>::clone ](b: &FixedBitSet) -> (r: FixedBitSet)
    ensures
        bits_of(r) == bits_of(*b),
;

/// Relies on `FixedBitSet::with_capacity`: `n` bits, all clear.
#[verifier::external_body]
fn bitset_with_capacity(n: usize) -> (r: FixedBitSet)
    ensures
        bits_of(r) == Seq::new(n as nat, |_i: int| false),
{
    FixedBitSet::with_capacity(n)
}

/// Relies on `FixedBitSet::len`: the number of bits.
#[verifier::external_body]
fn bitset_len(b: &FixedBitSet) -> (r: usize)
    ensures
        r == bits_of(*b).len(),
{
    b.len()
}

/// Relies on `FixedBitSet::insert`: sets bit `i`, which must be in range (it
/// panics otherwise).
#[verifier::external_body]
fn bitset_insert(b: &mut FixedBitSet, i: usize)
    requires
        i < bits_of(*old(b)).len(),
    ensures
        bits_of(*final(b)) == bits_of(*old(b)).update(i as int, true),
{
    b.insert(i)
}

/// Relies on `FixedBitSet::contains`: whether bit `i` is set; bits past the
/// end are clear.
#[verifier::external_body]
fn bitset_contains(b: &FixedBitSet, i: usize) -> (r: bool)
    ensures
        r == (i < bits_of(*b).len() && bits_of(*b)[i as int]),
{
    b.contains(i)
}

/// Relies on `FixedBitSet::is_subset`: every bit set in `a` is set in `b`.
#[verifier::external_body]
fn bitset_is_subset(a: &FixedBitSet, b: &FixedBitSet) -> (r: bool)
    ensures
        r == subset(bits_of(*a), bits_of(*b)),
{
    a.is_subset(b)
}

/// Relies on `FixedBitSet::union_with`: `a` grows to the longer length and
/// gains every bit set in `b`.
#[verifier::external_body]
fn bitset_union_with(a: &mut FixedBitSet, b: &FixedBitSet)
    ensures
        bits_of(*final(a)) == union(bits_of(*old(a)), bits_of(*b)),
{
    a.union_with(b)
}

/// Relies on `FixedBitSet::count_ones` over the whole set: the number of set
/// bits.
#[verifier::external_body]
fn bitset_count_ones(b: &FixedBitSet) -> (r: usize)
    ensures
        r == count_set(bits_of(*b)),
{
    b.count_ones(..)
}

/// Bit `i` of `s`, with bits past the end clear.
pub open spec fn bit(s: Seq<bool>, i: int) -> bool {
    0 <= i < s.len() && s[i]
}

/// Every bit set in `a` is set in `b`.
pub open spec fn subset(a: Seq<bool>, b: Seq<bool>) -> bool {
    forall|i: int| 0 <= i < a.len() && #[trigger] a[i] ==> bit(b, i)
}

/// The bitwise union, as long as the longer operand.
pub open spec fn union(a: Seq<bool>, b: Seq<bool>) -> Seq<bool> {
    Seq::new(if a.len() >= b.len() { a.len() } else { b.len() }, |i: int| bit(a, i) || bit(b, i))
}

/// The number of set bits.
pub open spec fn count_set(s: Seq<bool>) -> nat
    decreases s.len(),
{
    if s.len() == 0 {
        0
    } else {
        count_set(s.drop_last()) + if s.last() { 1nat } else { 0nat }
    }
}

/// The position of the pair of parsers `i > j` in the disagreement bits: the
/// pairs are numbered row by row through the lower triangle.
pub open spec fn pair_index(i: int, j: int) -> int {
    i * (i - 1) / 2 + j
}

/// The number of pairs among `n` parsers.
pub open spec fn pair_count(n: int) -> int {
    n * (n - 1) / 2
}

pub proof fn lemma_pair_index_next_row(i: int)
    requires
        i >= 0,
    ensures
        pair_index(i, 0) + i == pair_index(i + 1, 0),
{
    let x = i * (i - 1);
    assert((i + 1) * i == x + 2 * i) by (nonlinear_arith)
        requires x == i * (i - 1);
    assert((x + 2 * i) / 2 == x / 2 + i) by (nonlinear_arith);
}

pub proof fn lemma_row_start_mono(a: int, i: int)
    requires
        0 <= a <= i,
    ensures
        pair_index(a, 0) <= pair_index(i, 0),
    decreases i - a,
{
    if a < i {
        lemma_pair_index_next_row(a);
        lemma_row_start_mono(a + 1, i);
    }
}

/// A pair of an earlier row comes before the start of row `i`.
pub proof fn lemma_pair_before_row(a: int, b: int, i: int)
    requires
        0 <= b < a < i,
    ensures
        pair_index(a, b) < pair_index(i, 0),
{
    lemma_pair_index_next_row(a);
    lemma_row_start_mono(a + 1, i);
}

/// The feature vector of one sample over `n` parsers: `ok` has bit `i` when
/// parser `i` produced output; `inconsistency` has bit `pair_index(i, j)`
/// when parsers `i > j` produced different trees.
#[derive(Clone, Debug)]
pub struct Feature {
    pub ok: FixedBitSet,
    pub inconsistency: FixedBitSet,
}

impl Feature {
    pub open spec fn ok_bits(&self) -> Seq<bool> {
        bits_of(self.ok)
    }

    pub open spec fn incons_bits(&self) -> Seq<bool> {
        bits_of(self.inconsistency)
    }

    /// Sized for `n` parsers: `ok` has `n` bits and the disagreements one bit
    /// per pair.
    pub open spec fn sized_for(&self, n: int) -> bool {
        self.ok_bits().len() == n && self.incons_bits().len() == pair_count(n)
    }

    /// The empty feature for `n` parsers.
    pub fn new(n: usize) -> (r: Self)
        requires
            n >= 1,
            n * (n - 1) <= usize::MAX,
        ensures
            r.sized_for(n as int),
            forall|i: int| 0 <= i < n ==> !#[trigger] r.ok_bits()[i],
            forall|p: int| 0 <= p < pair_count(n as int) ==> !#[trigger] r.incons_bits()[p],
    {
        assert(n * (n - 1) >= 0) by (nonlinear_arith) requires n >= 1;
        let m = n * (n - 1) / 2;
        Feature { ok: bitset_with_capacity(n), inconsistency: bitset_with_capacity(m) }
    }

    /// Records the results of the parsers for one sample: bit `i` of `ok`
    /// for each parser with output, and the bit of each pair `i > j` whose
    /// trees differ.
    pub fn apply_results(&mut self, results: &Vec<ParsingResult>)
        requires
            old(self).sized_for(results@.len() as int),
            pair_count(results@.len() as int) <= usize::MAX,
        ensures
            final(self).sized_for(results@.len() as int),
            forall|i: int| 0 <= i < results@.len() ==>
                #[trigger] final(self).ok_bits()[i] == (old(self).ok_bits()[i] || results@[i] is Tree),
            forall|i: int, j: int| 0 <= j < i < results@.len() ==>
                #[trigger] final(self).incons_bits()[pair_index(i, j)]
                    == (old(self).incons_bits()[pair_index(i, j)] || inconsistent(results@[i], results@[j])),
    {
        let n = results.len();
        let mut p: usize = 0;
        let mut i: usize = 0;
        assert(pair_index(0, 0) == 0);
        while i < n
            invariant
                n == results@.len(),
                i <= n,
                pair_count(n as int) <= usize::MAX,
                self.sized_for(n as int),
                p == pair_index(i as int, 0),
                forall|k: int| 0 <= k < i ==> #[trigger] self.ok_bits()[k] == (old(self).ok_bits()[k] || results@[k] is Tree),
                forall|k: int| i <= k < n ==> #[trigger] self.ok_bits()[k] == old(self).ok_bits()[k],
                forall|a: int, b: int| 0 <= b < a < i ==>
                    #[trigger] self.incons_bits()[pair_index(a, b)]
                        == (old(self).incons_bits()[pair_index(a, b)] || inconsistent(results@[a], results@[b])),
                forall|q: int| pair_index(i as int, 0) <= q < pair_count(n as int) ==>
                    #[trigger] self.incons_bits()[q] == old(self).incons_bits()[q],
            decreases n - i,
        {
            let ghost row_start = self.incons_bits();
            proof {
                lemma_pair_index_next_row(i as int);
                lemma_row_start_mono(i as int + 1, n as int);
            }
            match results[i] {
                ParsingResult::Tree(_) => bitset_insert(&mut self.ok, i),
                ParsingResult::Missing => {},
            }
            let mut j: usize = 0;
            while j < i
                invariant
                    n == results@.len(),
                    j <= i < n,
                    self.sized_for(n as int),
                    p == pair_index(i as int, j as int),
                    pair_index(i as int + 1, 0) <= pair_count(n as int),
                    pair_index(i as int, 0) + i == pair_index(i as int + 1, 0),
                    pair_count(n as int) <= usize::MAX,
                    forall|k: int| 0 <= k <= i ==> #[trigger] self.ok_bits()[k] == (old(self).ok_bits()[k] || results@[k] is Tree),
                    forall|k: int| i < k < n ==> #[trigger] self.ok_bits()[k] == old(self).ok_bits()[k],
                    forall|a: int, b: int| 0 <= b < a < i ==>
                        #[trigger] self.incons_bits()[pair_index(a, b)]
                            == (old(self).incons_bits()[pair_index(a, b)] || inconsistent(results@[a], results@[b])),
                    forall|b: int| 0 <= b < j ==>
                        #[trigger] self.incons_bits()[pair_index(i as int, b)]
                            == (old(self).incons_bits()[pair_index(i as int, b)] || inconsistent(results@[i as int], results@[b])),
                    forall|q: int| pair_index(i as int, j as int) <= q < pair_count(n as int) ==>
                        #[trigger] self.incons_bits()[q] == old(self).incons_bits()[q],
                decreases i - j,
            {
                let ghost before = self.incons_bits();
                if results[i].inconsistent_with(&results[j]) {
                    bitset_insert(&mut self.inconsistency, p);
                }
                proof {
                    assert forall|a: int, b: int| 0 <= b < a < i implies
                        #[trigger] self.incons_bits()[pair_index(a, b)]
                            == (old(self).incons_bits()[pair_index(a, b)] || inconsistent(results@[a], results@[b])) by {
                        lemma_pair_before_row(a, b, i as int);
                        assert(pair_index(a, b) < p);
                        assert(self.incons_bits()[pair_index(a, b)] == before[pair_index(a, b)]);
                    }
                }
                p += 1;
                j += 1;
            }
            i += 1;
        }
    }

    /// Every bit of this feature is set in `by` as well.
    pub open spec fn covered_by(&self, by: &Feature) -> bool {
        subset(self.incons_bits(), by.incons_bits()) && subset(self.ok_bits(), by.ok_bits())
    }

    pub fn is_covered_by(&self, by: &Feature) -> (r: bool)
        ensures
            r == self.covered_by(by),
    {
        bitset_is_subset(&self.inconsistency, &by.inconsistency) && bitset_is_subset(&self.ok, &by.ok)
    }

    /// Adds every bit of `rhs` to this feature.
    pub fn merge(&mut self, rhs: &Feature)
        ensures
            final(self).ok_bits() == union(old(self).ok_bits(), rhs.ok_bits()),
            final(self).incons_bits() == union(old(self).incons_bits(), rhs.incons_bits()),
    {
        bitset_union_with(&mut self.ok, &rhs.ok);
        bitset_union_with(&mut self.inconsistency, &rhs.inconsistency);
    }

    /// Whether disagreement bit `p` is set.
    pub fn has_incons(&self, p: usize) -> (r: bool)
        ensures
            r == bit(self.incons_bits(), p as int),
    {
        bitset_contains(&self.inconsistency, p)
    }

    /// The number of parsers that produced output.
    pub fn ok_count(&self) -> (r: usize)
        ensures
            r == count_set(self.ok_bits()),
    {
        bitset_count_ones(&self.ok)
    }

    /// The number of disagreeing pairs.
    pub fn incons_count(&self) -> (r: usize)
        ensures
            r == count_set(self.incons_bits()),
    {
        bitset_count_ones(&self.inconsistency)
    }

    /// The pair positions whose bit is clear, in increasing order.
    pub fn consistent_pairs(&self) -> (r: Vec<usize>)
        ensures
            forall|k: int| 0 <= k < r@.len() ==> (#[trigger] r@[k]) < self.incons_bits().len()
                && !self.incons_bits()[r@[k] as int],
            forall|p: int| 0 <= p < self.incons_bits().len() && !self.incons_bits()[p]
                ==> r@.contains(p as usize),
            forall|a: int, b: int| 0 <= a < b < r@.len() ==> r@[a] < r@[b],
    {
        let n = bitset_len(&self.inconsistency);
        let mut r: Vec<usize> = Vec::new();
        let mut p: usize = 0;
        while p < n
            invariant
                p <= n,
                n == self.incons_bits().len(),
                forall|k: int| 0 <= k < r@.len() ==> (#[trigger] r@[k]) < p
                    && !self.incons_bits()[r@[k] as int],
                forall|q: int| 0 <= q < p && !self.incons_bits()[q] ==> r@.contains(q as usize),
                forall|a: int, b: int| 0 <= a < b < r@.len() ==> r@[a] < r@[b],
            decreases n - p,
        {
            if !bitset_contains(&self.inconsistency, p) {
                let ghost old_r = r@;
                r.push(p);
                proof {
                    assert forall|q: int| 0 <= q < p + 1 && !self.incons_bits()[q] implies r@.contains(q as usize) by {
                        if q < p {
                            assert(old_r.contains(q as usize));
                            let w = choose|w: int| 0 <= w < old_r.len() && old_r[w] == q as usize;
                            assert(r@[w] == q as usize);
                        } else {
                            assert(r@[r@.len() - 1] == p);
                        }
                    }
                }
            }
            p += 1;
        }
        r
    }
}

/// Merging features only adds bits: the result covers both operands.
pub proof fn lemma_merge_covers(a: Seq<bool>, b: Seq<bool>)
    ensures
        subset(a, union(a, b)),
        subset(b, union(a, b)),
{
}

} // verus!
