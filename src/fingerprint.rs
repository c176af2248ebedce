//! The fingerprint of a parser's extraction result: a digest of the
//! extracted tree that ignores what cannot matter (the order of directory
//! entries, the spelling of unusual names, empty directories) and keeps what
//! does (plain names, file contents, link targets).

use vstd::prelude::*;

verus! {

/// The 32-byte BLAKE3 digest of `data`.
pub uninterp spec fn blake3_of(data: Seq<u8>) -> [u8; 32];

/// Relies on `blake3::Hasher`: updating with `a` then `b` and finalizing gives
/// the 32-byte BLAKE3 digest of the two concatenated.
#[verifier::external_body]
fn blake3_concat(a: &[u8], b: &[u8]) -> (r: [u8; 32])
    ensures
        r == blake3_of(a@ + b@),
{
    let mut h = blake3::Hasher::new();
    h.update(a);
    h.update(b);
    *h.finalize().as_bytes()
}

/// The BLAKE3 digest of `data`, as 32 bytes.
pub fn digest(data: &[u8]) -> (r: [u8; 32])
    ensures
        r == blake3_of(data@),
{
    let empty: [u8; 0] = [];
    let r = blake3_concat(&empty, data);
    assert(empty@ + data@ =~= data@);
    r
}

/// The tag before a plain name (`N`).
pub const TAG_NAME: u8 = 0x4e;
/// The tag that stands for any other name (`S`).
pub const TAG_SPECIAL: u8 = 0x53;
/// The tag before a regular file's contents (`F`).
pub const TAG_FILE: u8 = 0x46;
/// The tag before a symbolic link's target (`L`).
pub const TAG_LINK: u8 = 0x4c;
/// The tag before a directory's sorted child digests (`D`).
pub const TAG_DIR: u8 = 0x44;

/// What a parser left for one sample: a tree with this fingerprint, or no
/// output at all.
#[derive(Clone, Copy, Debug)]
pub enum ParsingResult {
    Tree([u8; 32]),
    Missing,
}

/// Both results are trees, with different fingerprints.
pub open spec fn inconsistent(a: ParsingResult, b: ParsingResult) -> bool {
    match (a, b) {
        (ParsingResult::Tree(x), ParsingResult::Tree(y)) => x@ != y@,
        _ => false,
    }
}

pub fn same_digest(a: &[u8; 32], b: &[u8; 32]) -> (r: bool)
    ensures
        r == (a@ == b@),
{
    let mut i: usize = 0;
    while i < 32
        invariant
            i <= 32,
            a@.len() == 32,
            b@.len() == 32,
            forall|j: int| 0 <= j < i ==> a@[j] == b@[j],
        decreases 32 - i,
    {
        if a[i] != b[i] {
            return false;
        }
        i += 1;
    }
    assert(a@ =~= b@);
    true
}

impl ParsingResult {
    /// Two results disagree when both parsers produced a tree and the trees
    /// differ; a parser that produced nothing disagrees with nobody.
    pub fn inconsistent_with(&self, rhs: &Self) -> (r: bool)
        ensures
            r == inconsistent(*self, *rhs),
    {
        match (self, rhs) {
            (ParsingResult::Tree(a), ParsingResult::Tree(b)) => !same_digest(a, b),
            _ => false,
        }
    }
}

/// A byte that may stand in a name kept as it is: an ASCII letter or digit,
/// or one of `. _ - [ ]`.
pub open spec fn plain_byte(b: u8) -> bool {
    (0x30u8 <= b <= 0x39u8) || (0x61u8 <= b <= 0x7au8) || (0x41u8 <= b <= 0x5au8) || b == 0x2eu8 || b == 0x5fu8
        || b == 0x2du8 || b == 0x5bu8 || b == 0x5du8
}

/// A name made of plain bytes alone.
pub open spec fn plain_name(name: Seq<u8>) -> bool {
    forall|i: int| 0 <= i < name.len() ==> plain_byte(#[trigger] name[i])
}

/// Whether `name` is made of ASCII letters, digits and `. _ - [ ]` alone.
pub fn is_plain_name(name: &[u8]) -> (r: bool)
    ensures
        r == plain_name(name@),
{
    let mut i: usize = 0;
    while i < name.len()
        invariant
            i <= name@.len(),
            forall|j: int| 0 <= j < i ==> plain_byte(#[trigger] name@[j]),
        decreases name@.len() - i,
    {
        let b = name[i];
        let ok = (0x30u8 <= b && b <= 0x39u8) || (0x61u8 <= b && b <= 0x7au8) || (0x41u8 <= b && b <= 0x5au8)
            || b == 0x2eu8 || b == 0x5fu8 || b == 0x2du8 || b == 0x5bu8 || b == 0x5du8;
        if !ok {
            return false;
        }
        i += 1;
    }
    true
}

/// The bytes hashed for one directory entry: `N` and the name for a plain
/// name, `S` alone for any other (so all such names look alike), then the
/// entry's own digest.
pub open spec fn entry_record(name: Seq<u8>, child: Seq<u8>) -> Seq<u8> {
    if plain_name(name) {
        seq![TAG_NAME] + name + child
    } else {
        seq![TAG_SPECIAL] + child
    }
}

/// The digest of one directory entry named `name` whose own digest is `child`.
pub fn entry_digest(name: &[u8], child: &[u8; 32]) -> (r: [u8; 32])
    ensures
        r == blake3_of(entry_record(name@, child@)),
{
    if is_plain_name(name) {
        let mut head: Vec<u8> = Vec::new();
        head.push(TAG_NAME);
        crate::le::push_bytes(&mut head, name);
        let r = blake3_concat(head.as_slice(), child);
        assert(head@ + child@ =~= entry_record(name@, child@));
        r
    } else {
        let head: [u8; 1] = [TAG_SPECIAL];
        let r = blake3_concat(&head, child);
        assert(head@ + child@ =~= entry_record(name@, child@));
        r
    }
}

/// The digest of a regular file with contents `content`.
pub fn file_digest(content: &[u8]) -> (r: [u8; 32])
    ensures
        r == blake3_of(seq![TAG_FILE] + content@),
{
    let head: [u8; 1] = [TAG_FILE];
    let r = blake3_concat(&head, content);
    assert(head@ =~= seq![TAG_FILE]);
    r
}

/// The digest of a symbolic link to `target`.
pub fn symlink_digest(target: &[u8]) -> (r: [u8; 32])
    ensures
        r == blake3_of(seq![TAG_LINK] + target@),
{
    let head: [u8; 1] = [TAG_LINK];
    let r = blake3_concat(&head, target);
    assert(head@ =~= seq![TAG_LINK]);
    r
}

/// The digests of `s`, one after another.
pub open spec fn concat_digests(s: Seq<[u8; 32]>) -> Seq<u8>
    decreases s.len(),
{
    if s.len() == 0 {
        Seq::empty()
    } else {
        concat_digests(s.drop_last()) + s.last()@
    }
}

/// `a` comes before `b` byte-wise, or equals it.
pub open spec fn digest_le(a: Seq<u8>, b: Seq<u8>) -> bool
    decreases a.len(),
{
    if a.len() == 0 {
        true
    } else if b.len() == 0 {
        false
    } else if a[0] != b[0] {
        a[0] < b[0]
    } else {
        digest_le(a.drop_first(), b.drop_first())
    }
}

pub fn digest_less_eq(a: &[u8; 32], b: &[u8; 32]) -> (r: bool)
    ensures
        r == digest_le(a@, b@),
{
    let mut i: usize = 0;
    assert(a@.subrange(0, 32) =~= a@);
    assert(b@.subrange(0, 32) =~= b@);
    while i < 32
        invariant
            i <= 32,
            a@.len() == 32,
            b@.len() == 32,
            forall|j: int| 0 <= j < i ==> a@[j] == b@[j],
            digest_le(a@, b@) == digest_le(a@.subrange(i as int, 32), b@.subrange(i as int, 32)),
        decreases 32 - i,
    {
        assert(a@.subrange(i as int, 32).drop_first() =~= a@.subrange(i + 1, 32));
        assert(b@.subrange(i as int, 32).drop_first() =~= b@.subrange(i + 1, 32));
        if a[i] != b[i] {
            return a[i] < b[i];
        }
        i += 1;
    }
    true
}

/// The byte-wise order is reflexive.
pub proof fn lemma_digest_le_refl(a: Seq<u8>)
    ensures
        digest_le(a, a),
    decreases a.len(),
{
    if a.len() > 0 {
        lemma_digest_le_refl(a.drop_first());
    }
}

/// The byte-wise order is total.
pub proof fn lemma_digest_le_total(a: Seq<u8>, b: Seq<u8>)
    ensures
        digest_le(a, b) || digest_le(b, a),
    decreases a.len(),
{
    if a.len() > 0 && b.len() > 0 && a[0] == b[0] {
        lemma_digest_le_total(a.drop_first(), b.drop_first());
    }
}

/// The byte-wise order is transitive.
pub proof fn lemma_digest_le_trans(a: Seq<u8>, b: Seq<u8>, c: Seq<u8>)
    requires
        digest_le(a, b),
        digest_le(b, c),
    ensures
        digest_le(a, c),
    decreases a.len(),
{
    if a.len() > 0 && b.len() > 0 && c.len() > 0 && a[0] == b[0] && b[0] == c[0] {
        lemma_digest_le_trans(a.drop_first(), b.drop_first(), c.drop_first());
    }
}

/// Where `x` goes in `s`: after the leading run of digests not above it.
pub open spec fn insert_pos(s: Seq<[u8; 32]>, x: [u8; 32]) -> nat
    decreases s.len(),
{
    if s.len() == 0 {
        0
    } else if digest_le(s[0]@, x@) {
        1 + insert_pos(s.drop_first(), x)
    } else {
        0
    }
}

/// `s` sorted byte-wise by inserting its digests one at a time, first to
/// last.
pub open spec fn sorted_digests(s: Seq<[u8; 32]>) -> Seq<[u8; 32]>
    decreases s.len(),
{
    if s.len() == 0 {
        s
    } else {
        let t = sorted_digests(s.drop_last());
        t.insert(insert_pos(t, s.last()) as int, s.last())
    }
}

proof fn lemma_insert_pos_bound(s: Seq<[u8; 32]>, x: [u8; 32])
    ensures
        insert_pos(s, x) <= s.len(),
    decreases s.len(),
{
    if s.len() > 0 && digest_le(s[0]@, x@) {
        lemma_insert_pos_bound(s.drop_first(), x);
    }
}

/// Sorts digests byte-wise: the result holds the same digests, in order.
pub fn sort_digests(v: &Vec<[u8; 32]>) -> (r: Vec<[u8; 32]>)
    ensures
        r@ == sorted_digests(v@),
        r@.to_multiset() == v@.to_multiset(),
        forall|i: int, j: int| 0 <= i < j < r@.len() ==> digest_le(r@[i]@, r@[j]@),
{
    broadcast use vstd::seq_lib::group_to_multiset_ensures;
    let mut out: Vec<[u8; 32]> = Vec::new();
    let mut i: usize = 0;
    while i < v.len()
        invariant
            i <= v@.len(),
            out@ == sorted_digests(v@.subrange(0, i as int)),
            out@.to_multiset() == v@.subrange(0, i as int).to_multiset(),
            forall|a: int, b: int| 0 <= a < b < out@.len() ==> digest_le(out@[a]@, out@[b]@),
        decreases v@.len() - i,
    {
        let x = v[i];
        let mut k: usize = 0;
        assert(out@.subrange(0, out@.len() as int) =~= out@);
        while k < out.len() && digest_less_eq(&out[k], &x)
            invariant
                k <= out@.len(),
                forall|a: int| 0 <= a < k ==> digest_le(out@[a]@, x@),
                insert_pos(out@, x) == k + insert_pos(out@.subrange(k as int, out@.len() as int), x),
            decreases out@.len() - k,
        {
            assert(out@.subrange(k as int, out@.len() as int).drop_first() =~= out@.subrange(k + 1, out@.len() as int));
            k += 1;
        }
        proof {
            if k < out@.len() {
                assert(out@.subrange(k as int, out@.len() as int)[0] == out@[k as int]);
            }
            assert(insert_pos(out@, x) == k);
            let t = v@.subrange(0, i + 1);
            assert(t.drop_last() =~= v@.subrange(0, i as int));
            assert(t.last() == x);
        }
        let ghost before = out@;
        proof {
            if k < out@.len() {
                lemma_digest_le_total(before[k as int]@, x@);
            }
        }
        out.insert(k, x);
        proof {
            assert(v@.subrange(0, i + 1) =~= v@.subrange(0, i as int).push(x));
            assert(out@ == before.insert(k as int, x));
            vstd::seq_lib::to_multiset_insert(before, k as int, x);
            vstd::seq_lib::to_multiset_build(v@.subrange(0, i as int), x);
            assert forall|a: int, b: int| 0 <= a < b < out@.len() implies digest_le(out@[a]@, out@[b]@) by {
                if b < k {
                } else if b == k {
                } else if a < k {
                    // out[a] <= x and x <= out[b]: through before[k]
                    if k < before.len() {
                        if b - 1 > k {
                            lemma_digest_le_trans(x@, before[k as int]@, before[b - 1]@);
                        }
                        lemma_digest_le_trans(out@[a]@, x@, out@[b]@);
                    }
                } else if a == k {
                    if b - 1 > k {
                        lemma_digest_le_trans(x@, before[k as int]@, before[b - 1]@);
                    }
                } else {
                }
            }
        }
        i += 1;
    }
    assert(v@.subrange(0, v@.len() as int) =~= v@);
    out
}

/// The digest of a directory with the given child entry digests: `None`
/// for a directory with no (non-empty) entries, else the digest of `D`
/// followed by the children's digests in byte-wise order.
pub fn dir_digest(children: &Vec<[u8; 32]>) -> (r: Option<[u8; 32]>)
    ensures
        children@.len() == 0 <==> r is None,
        r matches Some(d) ==> d == blake3_of(seq![TAG_DIR] + concat_digests(sorted_digests(children@))),
{
    broadcast use vstd::seq_lib::group_to_multiset_ensures;
    if children.len() == 0 {
        return None;
    }
    let sorted = sort_digests(children);
    let mut body: Vec<u8> = Vec::new();
    let mut i: usize = 0;
    while i < sorted.len()
        invariant
            i <= sorted@.len(),
            body@ == concat_digests(sorted@.subrange(0, i as int)),
        decreases sorted@.len() - i,
    {
        crate::le::push_bytes(&mut body, &sorted[i]);
        proof {
            assert(sorted@.subrange(0, i + 1).drop_last() =~= sorted@.subrange(0, i as int));
        }
        i += 1;
    }
    assert(sorted@.subrange(0, sorted@.len() as int) =~= sorted@);
    let head: [u8; 1] = [TAG_DIR];
    let r = blake3_concat(&head, body.as_slice());
    assert(head@ =~= seq![TAG_DIR]);
    assert(blake3_of(seq![TAG_DIR] + concat_digests(sorted@)) == r);
    Some(r)
}

/// Digests in byte-wise order.
pub open spec fn digests_sorted(s: Seq<[u8; 32]>) -> bool {
    forall|a: int, b: int| 0 <= a < b < s.len() ==> digest_le(s[a]@, s[b]@)
}

pub proof fn lemma_digest_le_antisym(a: Seq<u8>, b: Seq<u8>)
    requires
        digest_le(a, b),
        digest_le(b, a),
        a.len() == b.len(),
    ensures
        a == b,
    decreases a.len(),
{
    if a.len() > 0 {
        lemma_digest_le_antisym(a.drop_first(), b.drop_first());
        assert(a =~= seq![a[0]] + a.drop_first());
        assert(b =~= seq![b[0]] + b.drop_first());
    } else {
        assert(a =~= b);
    }
}

pub proof fn lemma_same_digest(a: [u8; 32], b: [u8; 32])
    requires
        a@ == b@,
    ensures
        a == b,
{
    broadcast use vstd::array::group_array_axioms;
    assert forall|i: int| 0 <= i < 32 implies a[i] == b[i] by {
        assert(a@[i] == b@[i]);
    }
    assert(a =~= b);
}

proof fn lemma_insert_pos_facts(t: Seq<[u8; 32]>, x: [u8; 32])
    ensures
        insert_pos(t, x) <= t.len(),
        forall|a: int| 0 <= a < insert_pos(t, x) ==> digest_le(#[trigger] t[a]@, x@),
        insert_pos(t, x) < t.len() ==> !digest_le(t[insert_pos(t, x) as int]@, x@),
    decreases t.len(),
{
    if t.len() > 0 && digest_le(t[0]@, x@) {
        lemma_insert_pos_facts(t.drop_first(), x);
        assert forall|a: int| 0 <= a < insert_pos(t, x) implies digest_le(#[trigger] t[a]@, x@) by {
            if a > 0 {
                assert(t[a] == t.drop_first()[a - 1]);
            }
        }
    }
}

/// Sorting keeps the digests and puts them in byte-wise order.
pub proof fn lemma_sorted_digests(s: Seq<[u8; 32]>)
    ensures
        sorted_digests(s).to_multiset() == s.to_multiset(),
        digests_sorted(sorted_digests(s)),
    decreases s.len(),
{
    broadcast use vstd::seq_lib::group_to_multiset_ensures;
    if s.len() > 0 {
        let t = sorted_digests(s.drop_last());
        let x = s.last();
        lemma_sorted_digests(s.drop_last());
        lemma_insert_pos_facts(t, x);
        let k = insert_pos(t, x) as int;
        let r = t.insert(k, x);
        vstd::seq_lib::to_multiset_insert(t, k, x);
        assert(s =~= s.drop_last().push(x));
        vstd::seq_lib::to_multiset_build(s.drop_last(), x);
        if k < t.len() {
            lemma_digest_le_total(t[k]@, x@);
        }
        assert forall|a: int, b: int| 0 <= a < b < r.len() implies digest_le(r[a]@, r[b]@) by {
            if b < k {
            } else if b == k {
            } else if a < k {
                if b - 1 > k {
                    lemma_digest_le_trans(x@, t[k]@, t[b - 1]@);
                }
                lemma_digest_le_trans(r[a]@, x@, r[b]@);
            } else if a == k {
                if b - 1 > k {
                    lemma_digest_le_trans(x@, t[k]@, t[b - 1]@);
                }
            } else {
            }
        }
    }
}

/// Two sorted lists of the same digests are the same list.
pub proof fn lemma_sorted_unique(a: Seq<[u8; 32]>, b: Seq<[u8; 32]>)
    requires
        digests_sorted(a),
        digests_sorted(b),
        a.to_multiset() == b.to_multiset(),
    ensures
        a == b,
    decreases a.len(),
{
    broadcast use vstd::seq_lib::group_to_multiset_ensures;
    vstd::seq_lib::to_multiset_len(a);
    vstd::seq_lib::to_multiset_len(b);
    assert(a.len() == b.len());
    if a.len() > 0 {
        assert(a.contains(a[0]));
        assert(b.contains(b[0]));
        vstd::seq_lib::to_multiset_contains(a, a[0]);
        vstd::seq_lib::to_multiset_contains(b, a[0]);
        vstd::seq_lib::to_multiset_contains(a, b[0]);
        vstd::seq_lib::to_multiset_contains(b, b[0]);
        assert(b.contains(a[0]));
        assert(a.contains(b[0]));
        let j = choose|j: int| 0 <= j < b.len() && b[j] == a[0];
        let i = choose|i: int| 0 <= i < a.len() && a[i] == b[0];
        if j > 0 {
            assert(digest_le(b[0]@, b[j]@));
        } else {
            lemma_digest_le_total(b[0]@, a[0]@);
        }
        if i > 0 {
            assert(digest_le(a[0]@, a[i]@));
        } else {
            lemma_digest_le_total(a[0]@, b[0]@);
        }
        lemma_digest_le_antisym(a[0]@, b[0]@);
        lemma_same_digest(a[0], b[0]);
        vstd::seq_lib::to_multiset_remove(a, 0);
        vstd::seq_lib::to_multiset_remove(b, 0);
        assert(a.remove(0) =~= a.drop_first());
        assert(b.remove(0) =~= b.drop_first());
        lemma_sorted_unique(a.drop_first(), b.drop_first());
        assert(a =~= seq![a[0]] + a.drop_first());
        assert(b =~= seq![b[0]] + b.drop_first());
    } else {
        assert(a =~= b);
    }
}

/// The directory digest does not depend on the order in which the entries
/// were listed: the same child digests in any order sort to the same list.
pub proof fn lemma_dir_order_free(s1: Seq<[u8; 32]>, s2: Seq<[u8; 32]>)
    requires
        s1.to_multiset() == s2.to_multiset(),
    ensures
        sorted_digests(s1) == sorted_digests(s2),
{
    lemma_sorted_digests(s1);
    lemma_sorted_digests(s2);
    lemma_sorted_unique(sorted_digests(s1), sorted_digests(s2));
}

/// An extracted tree as read from disk: a regular file with its contents, a
/// symbolic link with its target, or a directory with its named entries.
#[derive(Debug)]
pub enum Tree {
    File(Vec<u8>),
    Link(Vec<u8>),
    Dir(Vec<(Vec<u8>, Tree)>),
}

/// The fingerprint of a tree: `None` for a directory with nothing but empty
/// directories in it, else the digest of its tagged contents.
pub open spec fn tree_digest_spec(t: Tree) -> Option<[u8; 32]>
    decreases t, 1int, 0int,
{
    match t {
        Tree::File(c) => Some(blake3_of(seq![TAG_FILE] + c@)),
        Tree::Link(l) => Some(blake3_of(seq![TAG_LINK] + l@)),
        Tree::Dir(ch) => {
            let ds = child_digests(t, ch@.len() as int);
            if ds.len() == 0 {
                None
            } else {
                Some(blake3_of(seq![TAG_DIR] + concat_digests(sorted_digests(ds))))
            }
        },
    }
}

/// The entry digests of the first `k` entries of directory `t`, skipping
/// entries without a fingerprint.
pub open spec fn child_digests(t: Tree, k: int) -> Seq<[u8; 32]>
    decreases t, 0int, k
    via child_digests_decreases
{
    match t {
        Tree::Dir(ch) => {
            if k <= 0 || k > ch@.len() {
                Seq::empty()
            } else {
                let prev = child_digests(t, k - 1);
                match tree_digest_spec(ch@[k - 1].1) {
                    Some(h) => prev.push(blake3_of(entry_record(ch@[k - 1].0@, h@))),
                    None => prev,
                }
            }
        },
        _ => Seq::empty(),
    }
}

#[via_fn]
proof fn child_digests_decreases(t: Tree, k: int) {
    broadcast use vstd::std_specs::vec::axiom_vec_index_decreases;
    match t {
        Tree::Dir(ch) => {
            if 0 < k <= ch@.len() {
                assert(decreases_to!(ch => ch[k - 1]));
            }
        },
        _ => {},
    }
}

/// The fingerprint of `t`.
pub fn tree_digest(t: &Tree) -> (r: Option<[u8; 32]>)
    ensures
        r == tree_digest_spec(*t),
    decreases t,
{
    match t {
        Tree::File(c) => Some(file_digest(c.as_slice())),
        Tree::Link(l) => Some(symlink_digest(l.as_slice())),
        Tree::Dir(ch) => {
            let mut ds: Vec<[u8; 32]> = Vec::new();
            let mut i: usize = 0;
            while i < ch.len()
                invariant
                    i <= ch@.len(),
                    *t == Tree::Dir(*ch),
                    ds@ == child_digests(*t, i as int),
                decreases ch@.len() - i,
            {
                let entry = &ch[i];
                proof {
                    broadcast use vstd::std_specs::vec::axiom_vec_index_decreases;
                    assert(decreases_to!(*ch => ch[i as int]));
                }
                match tree_digest(&entry.1) {
                    Some(h) => {
                        ds.push(entry_digest(entry.0.as_slice(), &h));
                    },
                    None => {},
                }
                i += 1;
            }
            dir_digest(&ds)
        },
    }
}

/// What a parser left: no directory at all is `Missing`; a directory is a
/// `Tree` with its fingerprint, all zero where it holds nothing but empty
/// directories.
pub fn parsing_result(t: Option<Tree>) -> (r: ParsingResult)
    ensures
        t is None ==> r is Missing,
        t matches Some(tree) ==> (r matches ParsingResult::Tree(d) && {
            &&& (tree_digest_spec(tree) matches Some(x) ==> d == x)
            &&& (tree_digest_spec(tree) is None ==> forall|i: int| 0 <= i < 32 ==> d@[i] == 0)
        }),
{
    match t {
        None => ParsingResult::Missing,
        Some(tree) => match tree_digest(&tree) {
            Some(d) => ParsingResult::Tree(d),
            None => {
                let z: [u8; 32] = [0u8; 32];
                assert(forall|i: int| 0 <= i < 32 ==> z@[i] == 0);
                ParsingResult::Tree(z)
            },
        },
    }
}

/// Two entry names that the fingerprint cannot tell apart: equal, or both
/// outside the plain alphabet.
pub open spec fn names_alike(a: Seq<u8>, b: Seq<u8>) -> bool {
    a == b || (!plain_name(a) && !plain_name(b))
}

proof fn lemma_child_digests_renamed(t1: Tree, t2: Tree, k: int)
    requires
        t1 matches Tree::Dir(c1) && t2 matches Tree::Dir(c2) && c1@.len() == c2@.len()
            && forall|i: int| 0 <= i < c1@.len() ==> #[trigger] c1@[i].1 == c2@[i].1 && names_alike(c1@[i].0@, c2@[i].0@),
    ensures
        child_digests(t1, k) == child_digests(t2, k),
    decreases k,
{
    if k > 0 {
        lemma_child_digests_renamed(t1, t2, k - 1);
        if let (Tree::Dir(c1), Tree::Dir(c2)) = (t1, t2) {
            if k <= c1@.len() {
                assert(c1@[k - 1].1 == c2@[k - 1].1);
            }
        }
    }
}

/// Renaming entries of a directory to names the fingerprint cannot tell
/// apart (in particular, one name outside the plain alphabet to another)
/// leaves its fingerprint as it was.
pub proof fn lemma_rename_keeps_digest(t1: Tree, t2: Tree)
    requires
        t1 matches Tree::Dir(c1) && t2 matches Tree::Dir(c2) && c1@.len() == c2@.len()
            && forall|i: int| 0 <= i < c1@.len() ==> #[trigger] c1@[i].1 == c2@[i].1 && names_alike(c1@[i].0@, c2@[i].0@),
    ensures
        tree_digest_spec(t1) == tree_digest_spec(t2),
{
    if let (Tree::Dir(c1), Tree::Dir(c2)) = (t1, t2) {
        lemma_child_digests_renamed(t1, t2, c1@.len() as int);
    }
}

/// Two names outside the plain alphabet give the same record: renaming an
/// entry from one to the other leaves every digest as it was.
pub proof fn lemma_special_names_alike(a: Seq<u8>, b: Seq<u8>, child: Seq<u8>)
    requires
        !plain_name(a),
        !plain_name(b),
    ensures
        entry_record(a, child) == entry_record(b, child),
{
}

/// A plain name and any other name give different records: renaming an entry
/// across the two classes changes what is hashed.
pub proof fn lemma_plain_and_special_differ(a: Seq<u8>, b: Seq<u8>, child: Seq<u8>)
    requires
        plain_name(a),
        !plain_name(b),
    ensures
        entry_record(a, child) != entry_record(b, child),
{
    assert(entry_record(a, child)[0] == TAG_NAME);
    assert(entry_record(b, child)[0] == TAG_SPECIAL);
}

} // verus!
