//! Key arithmetic: the successor of a key prefix and the point-range test.

use vstd::prelude::*;

verus! {

/// A half-open range of keys, `start` inclusive and `end` exclusive.
#[derive(Debug)]
pub struct KeyRange {
    pub start: Vec<u8>,
    pub end: Vec<u8>,
}

/// The two keys of a `KeyRange`.
pub struct KeyRangeView {
    pub start: Seq<u8>,
    pub end: Seq<u8>,
}

impl View for KeyRange {
    type V = KeyRangeView;

    open spec fn view(&self) -> KeyRangeView {
        KeyRangeView { start: self.start@, end: self.end@ }
    }
}

impl Clone for KeyRange {
    fn clone(&self) -> (res: KeyRange)
        ensures
            res@ == self@,
    {
        KeyRange { start: copy_bytes(&self.start), end: copy_bytes(&self.end) }
    }
}

/// Every byte of `key` is `0xFF`. True of the empty key.
pub open spec fn all_max(key: Seq<u8>) -> bool {
    forall|i: int| 0 <= i < key.len() ==> key[i] == 255u8
}

/// `len` zero bytes.
pub open spec fn zeros(len: nat) -> Seq<u8> {
    Seq::new(len, |i: int| 0u8)
}

/// `key` read as a big-endian number and increased by one, wrapping to all
/// zeros, at the same length.
pub open spec fn incremented(key: Seq<u8>) -> Seq<u8>
    decreases key.len(),
{
    if key.len() == 0 {
        key
    } else if key.last() == 255u8 {
        incremented(key.drop_last()).push(0u8)
    } else {
        key.drop_last().push((key.last() + 1) as u8)
    }
}

/// The successor of a key prefix. A key with a byte below `0xFF` is increased
/// by one as a big-endian number; a key of `n` bytes that are all `0xFF`
/// (the empty key among them) becomes `n + 1` zero bytes.
pub open spec fn spec_prefix_next(key: Seq<u8>) -> Seq<u8> {
    if all_max(key) {
        zeros(key.len() + 1)
    } else {
        incremented(key)
    }
}

/// A range is a point when its end is the successor of its start.
pub open spec fn spec_is_point(range: KeyRangeView) -> bool {
    range.end == spec_prefix_next(range.start)
}

proof fn lemma_incremented_len(key: Seq<u8>)
    ensures
        incremented(key).len() == key.len(),
    decreases key.len(),
{
    if key.len() > 0 && key.last() == 255u8 {
        lemma_incremented_len(key.drop_last());
    }
}

/// Incrementing turns a run of trailing `0xFF` bytes into zeros and adds one
/// to the byte before the run.
proof fn lemma_incremented_carry(key: Seq<u8>, i: int)
    requires
        0 <= i < key.len(),
        key[i] != 255u8,
        forall|j: int| i < j < key.len() ==> key[j] == 255u8,
    ensures
        incremented(key).len() == key.len(),
        forall|j: int| 0 <= j < i ==> incremented(key)[j] == key[j],
        incremented(key)[i] == key[i] + 1,
        forall|j: int| i < j < key.len() ==> incremented(key)[j] == 0u8,
    decreases key.len(),
{
    lemma_incremented_len(key);
    if i < key.len() - 1 {
        let head = key.drop_last();
        assert(key[key.len() - 1] == 255u8);
        lemma_incremented_carry(head, i);
        lemma_incremented_len(head);
        assert forall|j: int| 0 <= j < i implies incremented(key)[j] == key[j] by {
            assert(incremented(head)[j] == head[j]);
        }
    }
}

/// Only the all-`0xFF` key wraps to all zeros.
proof fn lemma_incremented_zero(key: Seq<u8>)
    requires
        incremented(key) == zeros(key.len()),
    ensures
        all_max(key),
    decreases key.len(),
{
    if key.len() > 0 {
        let head = key.drop_last();
        lemma_incremented_len(head);
        if key.last() == 255u8 {
            assert(incremented(key).drop_last() =~= incremented(head));
            assert(incremented(head) =~= zeros(head.len())) by {
                assert forall|j: int| 0 <= j < head.len() implies incremented(head)[j] == 0u8 by {
                    assert(incremented(key)[j] == zeros(key.len())[j]);
                }
            }
            lemma_incremented_zero(head);
            assert forall|j: int| 0 <= j < key.len() implies key[j] == 255u8 by {
                if j < head.len() {
                    assert(head[j] == 255u8);
                }
            }
        } else {
            assert(incremented(key)[key.len() - 1] == key.last() + 1);
            assert(zeros(key.len())[key.len() - 1] == 0u8);
        }
    }
}

proof fn lemma_incremented_injective(a: Seq<u8>, b: Seq<u8>)
    requires
        a.len() == b.len(),
        incremented(a) == incremented(b),
    ensures
        a == b,
    decreases a.len(),
{
    if a.len() > 0 {
        let ha = a.drop_last();
        let hb = b.drop_last();
        lemma_incremented_len(ha);
        lemma_incremented_len(hb);
        let n = a.len() - 1;
        assert(incremented(a)[n] == incremented(b)[n]);
        if a.last() == 255u8 {
            assert(incremented(a)[n] == 0u8);
            assert(b.last() == 255u8);
            assert(incremented(a).drop_last() =~= incremented(ha));
            assert(incremented(b).drop_last() =~= incremented(hb));
            lemma_incremented_injective(ha, hb);
        } else {
            assert(incremented(a)[n] == a.last() + 1);
            assert(b.last() != 255u8);
            assert(incremented(a).drop_last() =~= ha);
            assert(incremented(b).drop_last() =~= hb);
        }
        assert(a =~= ha.push(a.last()));
        assert(b =~= hb.push(b.last()));
    } else {
        assert(a =~= b);
    }
}

/// Two keys with the same successor are the same key.
pub proof fn lemma_prefix_next_injective(a: Seq<u8>, b: Seq<u8>)
    requires
        spec_prefix_next(a) == spec_prefix_next(b),
    ensures
        a == b,
{
    lemma_incremented_len(a);
    lemma_incremented_len(b);
    if all_max(a) && all_max(b) {
        assert(zeros(a.len() + 1).len() == zeros(b.len() + 1).len());
        assert(a =~= b);
    } else if all_max(a) {
        assert(b.len() == a.len() + 1);
        lemma_incremented_zero(b);
    } else if all_max(b) {
        assert(a.len() == b.len() + 1);
        lemma_incremented_zero(a);
    } else {
        lemma_incremented_injective(a, b);
    }
}

/// The successor of `n` bytes of `0xFF` is `n + 1` zero bytes.
pub proof fn lemma_prefix_next_all_max(key: Seq<u8>)
    requires
        all_max(key),
    ensures
        spec_prefix_next(key).len() == key.len() + 1,
        forall|i: int| 0 <= i <= key.len() ==> spec_prefix_next(key)[i] == 0u8,
{
}

/// A copy of `src`.
pub fn copy_bytes(src: &Vec<u8>) -> (res: Vec<u8>)
    ensures
        res@ == src@,
{
    let mut res: Vec<u8> = Vec::new();
    let mut i: usize = 0;
    while i < src.len()
        invariant
            i <= src.len(),
            res@ == src@.subrange(0, i as int),
        decreases src.len() - i,
    {
        res.push(src[i]);
        i += 1;
    }
    res
}

/// Appends `src` to `dst`.
pub fn extend_bytes(dst: &mut Vec<u8>, src: &Vec<u8>)
    ensures
        final(dst)@ == old(dst)@ + src@,
{
    let mut i: usize = 0;
    while i < src.len()
        invariant
            i <= src.len(),
            dst@ == old(dst)@ + src@.subrange(0, i as int),
        decreases src.len() - i,
    {
        dst.push(src[i]);
        i += 1;
    }
}

/// Whether two byte strings are equal.
pub fn bytes_eq(a: &Vec<u8>, b: &Vec<u8>) -> (res: bool)
    ensures
        res == (a@ == b@),
{
    if a.len() != b.len() {
        return false;
    }
    let mut i: usize = 0;
    while i < a.len()
        invariant
            i <= a.len(),
            a.len() == b.len(),
            a@.subrange(0, i as int) == b@.subrange(0, i as int),
        decreases a.len() - i,
    {
        if a[i] != b[i] {
            return false;
        }
        i += 1;
    }
    assert(a@.subrange(0, a.len() as int) =~= a@);
    assert(b@.subrange(0, b.len() as int) =~= b@);
    true
}

/// The successor of a key prefix: the key increased by one as a big-endian
/// number, or one byte longer and all zeros when no byte can be increased.
pub fn prefix_next(key: &[u8]) -> (next: Vec<u8>)
    ensures
        next@ == spec_prefix_next(key@),
{
    let mut nk: Vec<u8> = Vec::new();
    let mut k: usize = 0;
    while k < key.len()
        invariant
            k <= key.len(),
            nk@ == key@.subrange(0, k as int),
        decreases key.len() - k,
    {
        nk.push(key[k]);
        k += 1;
    }
    if nk.len() == 0 {
        nk.push(0);
        return nk;
    }
    let mut i: usize = nk.len() - 1;
    loop
        invariant
            i < key.len(),
            nk.len() == key.len(),
            forall|j: int| 0 <= j <= i ==> nk[j] == key[j],
            forall|j: int| i < j < key.len() ==> key[j] == 255u8 && nk[j] == 0u8,
        decreases i,
    {
        if nk[i] == 255 {
            nk[i] = 0;
        } else {
            nk[i] += 1;
            proof {
                lemma_incremented_carry(key@, i as int);
            }
            return nk;
        }
        if i == 0 {
            nk.push(0);
            return nk;
        }
        i -= 1;
    }
}

/// Whether `range` covers exactly the keys with the prefix `range.start`.
pub fn is_point(range: &KeyRange) -> (res: bool)
    ensures
        res == spec_is_point(range@),
{
    let next = prefix_next(range.start.as_slice());
    bytes_eq(&range.end, &next)
}

} // verus!
