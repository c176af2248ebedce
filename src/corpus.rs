//! The corpus of seeds: samples kept because no other seed covers what they
//! showed. It stays an antichain under coverage.

use crate::feature::{count_set, union, Feature};
use crate::fingerprint::{
    digest_le, digest_less_eq, lemma_digest_le_antisym, lemma_digest_le_refl, lemma_digest_le_total,
    lemma_digest_le_trans, lemma_same_digest, same_digest,
};
use crate::zip::ZipArchive;
use vstd::prelude::*;

verus! {

/// A fuzzing input: a structured archive, or raw bytes.
#[derive(Clone, Debug)]
pub enum Input {
    Zip(Box<ZipArchive>),
    Bytes(Vec<u8>),
}

/// A sample kept in the corpus, with what is known about it.
#[derive(Clone, Debug)]
pub struct Seed {
    pub input: Input,
    pub hash: [u8; 32],
    pub size: usize,
    pub feat: Feature,
    pub mutations: Vec<&'static str>,
    pub output_large: bool,
    pub selection_count: usize,
}

impl Seed {
    /// A seed not yet selected.
    pub fn new(
        input: Input,
        hash: [u8; 32],
        size: usize,
        feat: Feature,
        mutations: Vec<&'static str>,
        output_large: bool,
    ) -> (r: Self)
        ensures
            r.hash == hash,
            r.size == size,
            r.feat == feat,
            r.mutations == mutations,
            r.output_large == output_large,
            r.selection_count == 0,
    {
        Seed { input, hash, size, feat, mutations, output_large, selection_count: 0 }
    }
}

/// The ranking key of a seed: fewer mutations first, then more
/// disagreements, then more parsers with output, then smaller size.
pub open spec fn rank_le(a: Seed, b: Seed) -> bool {
    let ka = (a.mutations@.len() as int, count_set(a.feat.incons_bits()) as int, count_set(a.feat.ok_bits()) as int, a.size as int);
    let kb = (b.mutations@.len() as int, count_set(b.feat.incons_bits()) as int, count_set(b.feat.ok_bits()) as int, b.size as int);
    if ka.0 != kb.0 {
        ka.0 > kb.0
    } else if ka.1 != kb.1 {
        ka.1 < kb.1
    } else if ka.2 != kb.2 {
        ka.2 < kb.2
    } else {
        ka.3 >= kb.3
    }
}

/// The corpus: its seeds, and the union of all features ever admitted.
pub struct Corpus {
    seeds: Vec<Seed>,
    feature_sum: Feature,
    /// content hashes of every sample seen, in byte-wise order
    hashes: Vec<[u8; 32]>,
}

/// Distinct digests in increasing byte-wise order.
pub open spec fn strictly_sorted(s: Seq<[u8; 32]>) -> bool {
    forall|a: int, b: int| 0 <= a < b < s.len() ==> digest_le((#[trigger] s[a])@, (#[trigger] s[b])@) && s[a] != s[b]
}

/// No seed of `s` is covered by another.
pub open spec fn antichain(s: Seq<Seed>) -> bool {
    forall|i: int, j: int| 0 <= i < s.len() && 0 <= j < s.len() && i != j
        ==> !(#[trigger] s[i]).feat.covered_by(&(#[trigger] s[j]).feat)
}

/// The seeds of `s` that `f` does not cover, in order.
pub open spec fn survivors(s: Seq<Seed>, f: Feature) -> Seq<Seed>
    decreases s.len(),
{
    if s.len() == 0 {
        s
    } else if !s.last().feat.covered_by(&f) {
        survivors(s.drop_last(), f).push(s.last())
    } else {
        survivors(s.drop_last(), f)
    }
}

/// The number of seeds of `s` that show disagreement bit `b`.
pub open spec fn popularity(s: Seq<Seed>, b: int) -> nat
    decreases s.len(),
{
    if s.len() == 0 {
        0
    } else {
        popularity(s.drop_last(), b) + if bit_of(s.last(), b) { 1nat } else { 0nat }
    }
}

/// Seed `s` shows disagreement bit `bit`.
pub open spec fn bit_of(s: Seed, bit: int) -> bool {
    crate::feature::bit(s.feat.incons_bits(), bit)
}

proof fn lemma_rank_refl(a: Seed)
    ensures
        rank_le(a, a),
{
}

proof fn lemma_rank_trans(a: Seed, b: Seed, c: Seed)
    requires
        rank_le(a, b),
        rank_le(b, c),
    ensures
        rank_le(a, c),
{
}

proof fn lemma_rank_total(a: Seed, b: Seed)
    ensures
        rank_le(a, b) || rank_le(b, a),
{
}

/// Whether `b` ranks no higher than `a`.
fn rank_at_least(a: &Seed, b: &Seed) -> (r: bool)
    ensures
        r == rank_le(*b, *a),
{
    let am = a.mutations.len();
    let bm = b.mutations.len();
    if am != bm {
        return am < bm;
    }
    let ai = a.feat.incons_count();
    let bi = b.feat.incons_count();
    if ai != bi {
        return ai > bi;
    }
    let ao = a.feat.ok_count();
    let bo = b.feat.ok_count();
    if ao != bo {
        return ao > bo;
    }
    a.size <= b.size
}

impl Corpus {
    pub closed spec fn seeds(&self) -> Seq<Seed> {
        self.seeds@
    }

    pub closed spec fn feature_sum(&self) -> Feature {
        self.feature_sum
    }

    /// The corpus invariant: its seeds form an antichain under coverage.
    pub closed spec fn wf(&self) -> bool {
        antichain(self.seeds@) && strictly_sorted(self.hashes@)
    }

    /// Whether a sample with content hash `h` was seen.
    pub closed spec fn seen(&self, h: [u8; 32]) -> bool {
        self.hashes@.contains(h)
    }

    pub proof fn lemma_wf_is_antichain(&self)
        ensures
            self.wf() ==> antichain(self.seeds()),
    {
    }

    /// An empty corpus over `n` parsers.
    pub fn new(n: usize) -> (r: Self)
        requires
            n >= 1,
            n * (n - 1) <= usize::MAX,
        ensures
            r.wf(),
            r.seeds().len() == 0,
            forall|h: [u8; 32]| !r.seen(h),
            r.feature_sum().sized_for(n as int),
    {
        Corpus { seeds: Vec::new(), feature_sum: Feature::new(n), hashes: Vec::new() }
    }

    pub fn len(&self) -> (r: usize)
        ensures
            r == self.seeds().len(),
    {
        self.seeds.len()
    }

    /// The seed at `i`.
    pub fn seed(&self, i: usize) -> (r: &Seed)
        requires
            i < self.seeds().len(),
        ensures
            *r == self.seeds()[i as int],
    {
        &self.seeds[i]
    }

    /// The union of every feature admitted so far.
    pub fn feature_sum_ref(&self) -> (r: &Feature)
        ensures
            *r == self.feature_sum(),
    {
        &self.feature_sum
    }

    /// The number of seeds whose input is a structured archive.
    pub fn zip_count(&self) -> (r: usize)
        ensures
            r == self.seeds().filter(|s: Seed| s.input is Zip).len(),
    {
        let mut c: usize = 0;
        let mut i: usize = 0;
        while i < self.seeds.len()
            invariant
                i <= self.seeds@.len(),
                c == self.seeds@.subrange(0, i as int).filter(|s: Seed| s.input is Zip).len(),
                c <= i,
            decreases self.seeds@.len() - i,
        {
            proof {
                let t = self.seeds@.subrange(0, i + 1);
                assert(t.drop_last() =~= self.seeds@.subrange(0, i as int));
                reveal(Seq::filter);
                assert(self.seeds@.subrange(0, i as int).push(self.seeds@[i as int]) =~= t);
            }
            match &self.seeds[i].input {
                Input::Zip(_) => {
                    c += 1;
                },
                Input::Bytes(_) => {},
            }
            i += 1;
        }
        assert(self.seeds@.subrange(0, self.seeds@.len() as int) =~= self.seeds@);
        c
    }

    /// The number of parser pairs that some admitted seed showed disagreeing.
    pub fn incons_count(&self) -> (r: usize)
        ensures
            r == crate::feature::count_set(self.feature_sum().incons_bits()),
    {
        self.feature_sum.incons_count()
    }

    /// A feature is interesting when no seed covers it.
    pub fn is_feature_interesting(&self, feat: &Feature) -> (r: bool)
        ensures
            r == forall|i: int| 0 <= i < self.seeds().len() ==> !feat.covered_by(&(#[trigger] self.seeds()[i]).feat),
    {
        let mut i: usize = 0;
        while i < self.seeds.len()
            invariant
                i <= self.seeds@.len(),
                forall|k: int| 0 <= k < i ==> !feat.covered_by(&(#[trigger] self.seeds@[k]).feat),
            decreases self.seeds@.len() - i,
        {
            if feat.is_covered_by(&self.seeds[i].feat) {
                return false;
            }
            i += 1;
        }
        true
    }

    /// Admits an interesting seed: every seed it covers leaves, the seed
    /// joins at the end, and its feature joins the running union.
    pub fn insert_seed(&mut self, seed: Seed)
        requires
            old(self).wf(),
            forall|i: int| 0 <= i < old(self).seeds().len() ==> !seed.feat.covered_by(&(#[trigger] old(self).seeds()[i]).feat),
        ensures
            final(self).wf(),
            antichain(final(self).seeds()),
            final(self).seeds() == survivors(old(self).seeds(), seed.feat).push(seed),
            final(self).feature_sum().ok_bits() == union(old(self).feature_sum().ok_bits(), seed.feat.ok_bits()),
            final(self).feature_sum().incons_bits() == union(old(self).feature_sum().incons_bits(), seed.feat.incons_bits()),
    {
        self.feature_sum.merge(&seed.feat);
        let ghost f = seed.feat;
        let ghost old_seeds = self.seeds@;
        let mut taken: Vec<Seed> = Vec::new();
        std::mem::swap(&mut taken, &mut self.seeds);
        let mut kept: Vec<Seed> = Vec::new();
        let n = taken.len();
        let mut i: usize = 0;
        while i < n
            invariant
                n == old_seeds.len(),
                i <= n,
                f == seed.feat,
                taken@ == old_seeds.subrange(i as int, n as int),
                antichain(old_seeds),
                kept@ == survivors(old_seeds.subrange(0, i as int), f),
                forall|k: int| 0 <= k < kept@.len() ==> !(#[trigger] kept@[k]).feat.covered_by(&f),
                forall|k: int| 0 <= k < kept@.len() ==> exists|idx: int| 0 <= idx < i && old_seeds[idx] == #[trigger] kept@[k],
                antichain(kept@),
            decreases n - i,
        {
            proof {
                let t = old_seeds.subrange(0, i + 1);
                assert(t.drop_last() =~= old_seeds.subrange(0, i as int));
                reveal(Seq::filter);
                assert(old_seeds.subrange(0, i as int).push(old_seeds[i as int]) =~= t);
            }
            let x = taken.remove(0);
            assert(x == old_seeds[i as int]);
            assert(taken@ =~= old_seeds.subrange(i + 1, n as int));
            let ghost t = old_seeds.subrange(0, i + 1);
            assert(t.last() == x);
            if !x.feat.is_covered_by(&seed.feat) {
                let ghost before = kept@;
                kept.push(x);
                proof {
                    assert(f == seed.feat);
                    assert(!x.feat.covered_by(&f));
                    assert(t.len() > 0);
                    assert(!t.last().feat.covered_by(&f));
                    assert(survivors(t, f) == survivors(t.drop_last(), f).push(t.last()));
                    assert(kept@ == survivors(t, f));
                    assert forall|a: int, b: int| 0 <= a < kept@.len() && 0 <= b < kept@.len() && a != b
                        implies !(#[trigger] kept@[a]).feat.covered_by(&(#[trigger] kept@[b]).feat) by {
                        if a < before.len() && b < before.len() {
                            assert(before[a] == kept@[a] && before[b] == kept@[b]);
                        } else if a < before.len() {
                            let ia = choose|idx: int| 0 <= idx < i && old_seeds[idx] == before[a];
                            assert(old_seeds[ia] == kept@[a]);
                            assert(kept@[b] == old_seeds[i as int]);
                        } else {
                            let ib = choose|idx: int| 0 <= idx < i && old_seeds[idx] == before[b];
                            assert(old_seeds[ib] == kept@[b]);
                            assert(kept@[a] == old_seeds[i as int]);
                        }
                    }
                    assert forall|k: int| 0 <= k < kept@.len() implies exists|idx: int| 0 <= idx < i + 1 && old_seeds[idx] == #[trigger] kept@[k] by {
                        if k < before.len() {
                            let ik = choose|idx: int| 0 <= idx < i && old_seeds[idx] == before[k];
                            assert(old_seeds[ik] == kept@[k]);
                        } else {
                            assert(old_seeds[i as int] == kept@[k]);
                        }
                    }
                }
            } else {
                proof {
                    assert(survivors(t, f) == survivors(t.drop_last(), f));
                }
            }
            i += 1;
        }
        assert(old_seeds.subrange(0, n as int) =~= old_seeds);
        let ghost before = kept@;
        kept.push(seed);
        proof {
            assert forall|a: int, b: int| 0 <= a < kept@.len() && 0 <= b < kept@.len() && a != b
                implies !(#[trigger] kept@[a]).feat.covered_by(&(#[trigger] kept@[b]).feat) by {
                if a < before.len() && b < before.len() {
                    assert(before[a] == kept@[a] && before[b] == kept@[b]);
                } else if a < before.len() {
                    assert(kept@[b] == seed);
                    assert(!before[a].feat.covered_by(&f));
                } else {
                    assert(b < before.len());
                    let ib = choose|idx: int| 0 <= idx < n && old_seeds[idx] == before[b];
                    assert(old_seeds[ib] == kept@[b]);
                    assert(kept@[a] == seed);
                    assert(old(self).seeds() == old_seeds);
                    assert(!seed.feat.covered_by(&old(self).seeds()[ib].feat));
                }
            }
        }
        self.seeds = kept;
    }

    /// The best seed that shows disagreement bit `bit`, by `rank_le` (the
    /// last of equals), or `None` where no seed shows it.
    pub fn best_seed(&self, bit: usize) -> (r: Option<usize>)
        ensures
            r is None <==> forall|j: int| 0 <= j < self.seeds().len() ==> !bit_of(#[trigger] self.seeds()[j], bit as int),
            r matches Some(i) ==> i < self.seeds().len() && bit_of(self.seeds()[i as int], bit as int)
                && forall|j: int| 0 <= j < self.seeds().len() && bit_of(#[trigger] self.seeds()[j], bit as int)
                    ==> rank_le(self.seeds()[j], self.seeds()[i as int]),
    {
        let mut best: Option<usize> = None;
        let mut i: usize = 0;
        while i < self.seeds.len()
            invariant
                i <= self.seeds@.len(),
                best is None <==> forall|j: int| 0 <= j < i ==> !bit_of(#[trigger] self.seeds@[j], bit as int),
                best matches Some(b) ==> b < i && bit_of(self.seeds@[b as int], bit as int)
                    && forall|j: int| 0 <= j < i && bit_of(#[trigger] self.seeds@[j], bit as int)
                        ==> rank_le(self.seeds@[j], self.seeds@[b as int]),
            decreases self.seeds@.len() - i,
        {
            let s = &self.seeds[i];
            if s.feat.has_incons(bit) {
                let take = match best {
                    None => true,
                    Some(b) => rank_at_least(s, &self.seeds[b]),
                };
                if take {
                    proof {
                        assert forall|j: int| 0 <= j < i + 1 && bit_of(#[trigger] self.seeds@[j], bit as int)
                            implies rank_le(self.seeds@[j], self.seeds@[i as int]) by {
                            if j < i {
                                lemma_rank_trans(self.seeds@[j], self.seeds@[best->Some_0 as int], self.seeds@[i as int]);
                            } else {
                                lemma_rank_refl(self.seeds@[j]);
                            }
                        }
                    }
                    best = Some(i);
                } else {
                    proof {
                        lemma_rank_total(self.seeds@[i as int], self.seeds@[best->Some_0 as int]);
                    }
                }
            }
            i += 1;
        }
        proof {
            assert(self.seeds() == self.seeds@);
            if best is Some {
                assert(bit_of(self.seeds()[best->Some_0 as int], bit as int));
            }
        }
        best
    }

    /// For each of the first `bits` disagreement bits, how many seeds show it.
    pub fn incons_popularity(&self, bits: usize) -> (r: Vec<usize>)
        ensures
            r@.len() == bits,
            forall|b: int| 0 <= b < bits ==> #[trigger] r@[b] == popularity(self.seeds(), b),
    {
        let mut r: Vec<usize> = Vec::new();
        let mut b: usize = 0;
        while b < bits
            invariant
                b <= bits,
                r@.len() == b,
                forall|k: int| 0 <= k < b ==> #[trigger] r@[k] == popularity(self.seeds@, k),
            decreases bits - b,
        {
            let mut c: usize = 0;
            let mut i: usize = 0;
            while i < self.seeds.len()
                invariant
                    i <= self.seeds@.len(),
                    c == popularity(self.seeds@.subrange(0, i as int), b as int),
                    c <= i,
                decreases self.seeds@.len() - i,
            {
                proof {
                    assert(self.seeds@.subrange(0, i + 1).drop_last() =~= self.seeds@.subrange(0, i as int));
                }
                if self.seeds[i].feat.has_incons(b) {
                    c += 1;
                }
                i += 1;
            }
            assert(self.seeds@.subrange(0, self.seeds@.len() as int) =~= self.seeds@);
            r.push(c);
            b += 1;
        }
        r
    }

    /// Records content hash `h` as seen; `true` when it is new.
    pub fn insert_hash(&mut self, h: [u8; 32]) -> (r: bool)
        requires
            old(self).wf(),
        ensures
            final(self).wf(),
            r == !old(self).seen(h),
            forall|x: [u8; 32]| final(self).seen(x) <==> old(self).seen(x) || x == h,
            final(self).seeds() == old(self).seeds(),
            final(self).feature_sum() == old(self).feature_sum(),
    {
        let mut lo: usize = 0;
        let mut hi: usize = self.hashes.len();
        while lo < hi
            invariant
                lo <= hi <= self.hashes@.len(),
                *self == *old(self),
                self.wf(),
                strictly_sorted(self.hashes@),
                forall|k: int| 0 <= k < lo ==> digest_le((#[trigger] self.hashes@[k])@, h@) && self.hashes@[k] != h,
                forall|k: int| hi <= k < self.hashes@.len() ==> digest_le(h@, (#[trigger] self.hashes@[k])@) && self.hashes@[k] != h,
            decreases hi - lo,
        {
            let mid = lo + (hi - lo) / 2;
            let x = self.hashes[mid];
            if digest_less_eq(&x, &h) {
                if same_digest(&x, &h) {
                    proof {
                        lemma_same_digest(x, h);
                    }
                    return false;
                }
                proof {
                    assert forall|k: int| 0 <= k < mid + 1 implies digest_le((#[trigger] self.hashes@[k])@, h@) && self.hashes@[k] != h by {
                        if k < mid {
                            lemma_digest_le_trans(self.hashes@[k]@, x@, h@);
                            if self.hashes@[k] == h {
                                lemma_digest_le_antisym(x@, h@);
                            }
                        }
                    }
                }
                lo = mid + 1;
            } else {
                proof {
                    lemma_digest_le_total(x@, h@);
                    lemma_digest_le_refl(h@);
                    assert forall|k: int| mid <= k < self.hashes@.len() implies digest_le(h@, (#[trigger] self.hashes@[k])@) && self.hashes@[k] != h by {
                        if mid < k && k < hi {
                            lemma_digest_le_trans(h@, x@, self.hashes@[k]@);
                            if self.hashes@[k] == h {
                                lemma_digest_le_antisym(x@, h@);
                            }
                        }
                    }
                }
                hi = mid;
            }
        }
        let ghost before = self.hashes@;
        self.hashes.insert(lo, h);
        proof {
            assert(self.hashes@ == before.insert(lo as int, h));
            assert forall|a: int, b: int| 0 <= a < b < self.hashes@.len() implies
                digest_le((#[trigger] self.hashes@[a])@, (#[trigger] self.hashes@[b])@) && self.hashes@[a] != self.hashes@[b] by {
                if b < lo {
                } else if b == lo {
                } else if a < lo {
                    lemma_digest_le_trans(self.hashes@[a]@, h@, self.hashes@[b]@);
                    if self.hashes@[a] == self.hashes@[b] {
                        assert(self.hashes@[a] == before[a]);
                        assert(self.hashes@[b] == before[b - 1]);
                    }
                } else if a == lo {
                } else {
                }
            }
            assert(!before.contains(h)) by {
                if before.contains(h) {
                    let k = choose|k: int| 0 <= k < before.len() && before[k] == h;
                    assert(k < lo || k >= hi);
                }
            }
            assert forall|x: [u8; 32]| self.hashes@.contains(x) <==> before.contains(x) || x == h by {
                if self.hashes@.contains(x) {
                    let k = choose|k: int| 0 <= k < self.hashes@.len() && self.hashes@[k] == x;
                    if k < lo {
                        assert(before[k] == x);
                    } else if k > lo {
                        assert(before[k - 1] == x);
                    }
                }
                if before.contains(x) {
                    let k = choose|k: int| 0 <= k < before.len() && before[k] == x;
                    if k < lo {
                        assert(self.hashes@[k] == x);
                    } else {
                        assert(self.hashes@[k + 1] == x);
                    }
                }
                if x == h {
                    assert(self.hashes@[lo as int] == h);
                }
            }
        }
        true
    }

    /// Counts one more selection of the seed at `index`.
    pub fn record_selection(&mut self, index: usize)
        requires
            index < old(self).seeds().len(),
            old(self).seeds()[index as int].selection_count < usize::MAX,
        ensures
            final(self).seeds().len() == old(self).seeds().len(),
            forall|i: int| 0 <= i < old(self).seeds().len() && i != index ==> final(self).seeds()[i] == old(self).seeds()[i],
            final(self).seeds()[index as int].selection_count == old(self).seeds()[index as int].selection_count + 1,
            final(self).seeds()[index as int].feat == old(self).seeds()[index as int].feat,
            final(self).seeds()[index as int].hash == old(self).seeds()[index as int].hash,
            final(self).seeds()[index as int].size == old(self).seeds()[index as int].size,
            final(self).wf() == old(self).wf(),
            final(self).feature_sum() == old(self).feature_sum(),
    {
        self.seeds[index].selection_count = self.seeds[index].selection_count + 1;
        proof {
            assert forall|i: int| 0 <= i < self.seeds@.len() implies (#[trigger] self.seeds@[i]).feat == old(self).seeds@[i].feat by {}
            if old(self).wf() {
                assert forall|a: int, b: int| 0 <= a < self.seeds@.len() && 0 <= b < self.seeds@.len() && a != b
                    implies !(#[trigger] self.seeds@[a]).feat.covered_by(&(#[trigger] self.seeds@[b]).feat) by {
                    assert(self.seeds@[a].feat == old(self).seeds@[a].feat);
                    assert(self.seeds@[b].feat == old(self).seeds@[b].feat);
                }
            }
            if self.wf() {
                assert forall|a: int, b: int| 0 <= a < old(self).seeds@.len() && 0 <= b < old(self).seeds@.len() && a != b
                    implies !(#[trigger] old(self).seeds@[a]).feat.covered_by(&(#[trigger] old(self).seeds@[b]).feat) by {
                    assert(self.seeds@[a].feat == old(self).seeds@[a].feat);
                    assert(self.seeds@[b].feat == old(self).seeds@[b].feat);
                }
            }
        }
    }
}

} // verus!
