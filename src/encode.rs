//! Serialization of the model: every type writes the exact bytes a ZIP reader
//! expects, and can tell how many bytes that is without writing them.

use crate::error::ZipError;
use vstd::prelude::*;

verus! {

/// A value with an exact on-wire encoding.
pub trait BinaryEncode {
    /// The bytes this value serializes to.
    spec fn encoding(&self) -> Seq<u8>;

    /// Appends the encoding of this value to `out`.
    fn write(&self, out: &mut Vec<u8>)
        ensures
            final(out)@ == old(out)@ + self.encoding(),
    ;
}

/// A value whose encoded length can be computed without serializing it.
pub trait BinCount: BinaryEncode {
    /// The number of bytes `write` appends, or `TooLarge` where that number
    /// does not fit in a `usize`.
    fn byte_count(&self) -> (r: Result<usize, ZipError>)
        ensures
            r is Ok <==> self.encoding().len() <= usize::MAX,
            r matches Ok(n) ==> n == self.encoding().len(),
            r matches Err(e) ==> e == ZipError::TooLarge,
    ;
}

/// The encodings of the items of `s`, one after another.
pub open spec fn concat_encodings<T: BinaryEncode>(s: Seq<T>) -> Seq<u8>
    decreases s.len(),
{
    if s.len() == 0 {
        Seq::empty()
    } else {
        concat_encodings(s.drop_last()) + s.last().encoding()
    }
}

/// Serializes `x` into a fresh buffer.
pub fn binary_encode<T: BinaryEncode>(x: &T) -> (r: Vec<u8>)
    ensures
        r@ == x.encoding(),
{
    let mut out: Vec<u8> = Vec::new();
    x.write(&mut out);
    assert(out@ =~= x.encoding());
    out
}

impl<T: BinaryEncode> BinaryEncode for Vec<T> {
    open spec fn encoding(&self) -> Seq<u8> {
        concat_encodings(self@)
    }

    fn write(&self, out: &mut Vec<u8>) {
        let mut i: usize = 0;
        while i < self.len()
            invariant
                i <= self@.len(),
                out@ == old(out)@ + concat_encodings(self@.subrange(0, i as int)),
            decreases self@.len() - i,
        {
            let ghost before = out@;
            self[i].write(out);
            proof {
                let s = self@.subrange(0, i + 1);
                assert(s.drop_last() =~= self@.subrange(0, i as int));
                assert(s.last() == self@[i as int]);
            }
            i += 1;
        }
        assert(self@.subrange(0, self@.len() as int) =~= self@);
    }
}

impl<T: BinCount> BinCount for Vec<T> {
    fn byte_count(&self) -> (r: Result<usize, ZipError>) {
        let mut total: usize = 0;
        let mut i: usize = 0;
        while i < self.len()
            invariant
                i <= self@.len(),
                total == concat_encodings(self@.subrange(0, i as int)).len(),
                forall|j: int| 0 <= j <= i ==> concat_encodings(self@.subrange(0, j)).len() <= total,
            decreases self@.len() - i,
        {
            proof {
                let s = self@.subrange(0, i + 1);
                assert(s.drop_last() =~= self@.subrange(0, i as int));
            }
            match self[i].byte_count() {
                Ok(n) => {
                    if n > usize::MAX - total {
                        proof { lemma_concat_prefix_grows(self@, i as int + 1); }
                        return Err(ZipError::TooLarge);
                    }
                    total = total + n;
                },
                Err(e) => {
                    proof { lemma_concat_prefix_grows(self@, i as int + 1); }
                    return Err(e);
                },
            }
            i += 1;
        }
        assert(self@.subrange(0, self@.len() as int) =~= self@);
        Ok(total)
    }
}

/// Lists whose items encode alike encode alike.
pub proof fn lemma_concat_pointwise<T: BinaryEncode>(a: Seq<T>, b: Seq<T>)
    requires
        a.len() == b.len(),
        forall|i: int| 0 <= i < a.len() ==> (#[trigger] a[i]).encoding() == b[i].encoding(),
    ensures
        concat_encodings(a) == concat_encodings(b),
    decreases a.len(),
{
    if a.len() > 0 {
        let a1 = a.drop_last();
        let b1 = b.drop_last();
        assert forall|i: int| 0 <= i < a1.len() implies (#[trigger] a1[i]).encoding() == b1[i].encoding() by {
            assert(a1[i] == a[i] && b1[i] == b[i]);
        }
        lemma_concat_pointwise(a1, b1);
        assert(a[a.len() - 1].encoding() == b[b.len() - 1].encoding());
    }
}

/// The encoding of a prefix is never longer than the encoding of the whole.
pub proof fn lemma_concat_prefix_grows<T: BinaryEncode>(s: Seq<T>, k: int)
    requires
        0 <= k <= s.len(),
    ensures
        concat_encodings(s.subrange(0, k)).len() <= concat_encodings(s).len(),
    decreases s.len() - k,
{
    if k < s.len() {
        lemma_concat_prefix_grows(s, k + 1);
        let t = s.subrange(0, k + 1);
        assert(t.drop_last() =~= s.subrange(0, k));
    } else {
        assert(s.subrange(0, k) =~= s);
    }
}

} // verus!
