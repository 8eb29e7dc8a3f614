//! Searching and splitting byte strings.

use vstd::prelude::*;
use vstd::slice::{slice_subrange, slice_to_vec};

verus! {

/// The position of the first `b` in `s`, or the length of `s` if there is
/// none.
pub open spec fn index_of(s: Seq<u8>, b: u8) -> int
    decreases s.len(),
{
    if s.len() == 0 || s[0] == b {
        0
    } else {
        1 + index_of(s.drop_first(), b)
    }
}

/// Whether `k` is the position of the first `b` in `s`, or the length of `s`
/// where `s` holds no `b`.
pub open spec fn is_first_index(s: Seq<u8>, b: u8, k: int) -> bool {
    &&& 0 <= k <= s.len()
    &&& k < s.len() ==> s[k] == b
    &&& forall|j: int| 0 <= j < k ==> s[j] != b
}

/// `index_of` gives the first position.
pub proof fn lemma_index_of(s: Seq<u8>, b: u8)
    ensures
        is_first_index(s, b, index_of(s, b)),
    decreases s.len(),
{
    if s.len() != 0 && s[0] != b {
        lemma_index_of(s.drop_first(), b);
        let k = index_of(s, b);
        assert forall|j: int| 0 <= j < k implies s[j] != b by {
            if j > 0 {
                assert(s.drop_first()[j - 1] == s[j]);
            }
        }
    }
}

/// The first position is what `index_of` gives.
pub proof fn lemma_first_index_is_index_of(s: Seq<u8>, b: u8, k: int)
    requires
        is_first_index(s, b, k),
    ensures
        index_of(s, b) == k,
{
    lemma_index_of(s, b);
}

/// The fields of `s` between separators `sep`: always at least one, and one
/// more than there are separators.
pub open spec fn split(s: Seq<u8>, sep: u8) -> Seq<Seq<u8>>
    decreases s.len(),
    via split_decreases
{
    let k = index_of(s, sep);
    if k >= s.len() {
        seq![s]
    } else {
        seq![s.take(k)] + split(s.skip(k + 1), sep)
    }
}

#[via_fn]
proof fn split_decreases(s: Seq<u8>, sep: u8) {
    lemma_index_of(s, sep);
}

/// Splitting gives at least one field.
pub proof fn lemma_split_nonempty(s: Seq<u8>, sep: u8)
    ensures
        split(s, sep).len() >= 1,
{
    lemma_index_of(s, sep);
}

/// A byte string without the separator is a single field.
pub proof fn lemma_split_single(a: Seq<u8>, sep: u8)
    requires
        !a.contains(sep),
    ensures
        split(a, sep) == seq![a],
{
    lemma_index_of(a, sep);
    if index_of(a, sep) < a.len() {
        assert(a.contains(a[index_of(a, sep)]));
    }
}

/// A field without the separator, a separator and a rest split into that
/// field and the fields of the rest.
pub proof fn lemma_split_first(a: Seq<u8>, rest: Seq<u8>, sep: u8)
    requires
        !a.contains(sep),
    ensures
        split(a + seq![sep] + rest, sep) == seq![a] + split(rest, sep),
{
    let s = a + seq![sep] + rest;
    assert forall|j: int| 0 <= j < a.len() implies s[j] != sep by {
        assert(a.contains(a[j]));
    }
    assert(s[a.len() as int] == sep);
    lemma_first_index_is_index_of(s, sep, a.len() as int);
    assert(s.take(a.len() as int) =~= a);
    assert(s.skip(a.len() as int + 1) =~= rest);
}

/// The contents of a list of byte vectors.
pub open spec fn byte_views(v: Seq<Vec<u8>>) -> Seq<Seq<u8>> {
    v.map_values(|f: Vec<u8>| f@)
}

/// The position of the first `b` at or after `start`, or the length of `s`.
pub fn find_from(s: &[u8], start: usize, b: u8) -> (k: usize)
    requires
        start <= s@.len(),
    ensures
        start <= k <= s@.len(),
        k - start == index_of(s@.skip(start as int), b),
{
    let mut k: usize = start;
    while k < s.len() && s[k] != b
        invariant
            start <= k <= s@.len(),
            forall|j: int| start <= j < k ==> s@[j] != b,
        decreases s@.len() - k,
    {
        k += 1;
    }
    proof {
        lemma_first_index_is_index_of(s@.skip(start as int), b, k - start);
    }
    k
}

/// A copy of the bytes `s[from..to]`.
pub fn copy_range(s: &[u8], from: usize, to: usize) -> (v: Vec<u8>)
    requires
        from <= to <= s@.len(),
    ensures
        v@ == s@.subrange(from as int, to as int),
{
    slice_to_vec(slice_subrange(s, from, to))
}

/// Splits a byte string at every separator.
pub fn split_bytes(s: &[u8], sep: u8) -> (fields: Vec<Vec<u8>>)
    ensures
        byte_views(fields@) == split(s@, sep),
{
    let mut fields: Vec<Vec<u8>> = Vec::new();
    let mut start: usize = 0;
    let mut done = false;
    assert(s@.skip(0) =~= s@);
    assert(byte_views(fields@) + split(s@, sep) =~= split(s@, sep));
    while !done
        invariant
            start <= s@.len(),
            !done ==> split(s@, sep) == byte_views(fields@) + split(s@.skip(start as int), sep),
            done ==> split(s@, sep) == byte_views(fields@),
        decreases s@.len() - start + (if done { 0int } else { 1int }),
    {
        let k = find_from(s, start, sep);
        let field = copy_range(s, start, k);
        proof {
            let rest = s@.skip(start as int);
            assert(rest.take(k - start) =~= field@);
            assert(byte_views(fields@.push(field)) =~= byte_views(fields@).push(field@));
            if k < s@.len() {
                assert(rest.skip(k - start + 1) =~= s@.skip(k + 1));
                assert(split(s@, sep) =~= byte_views(fields@.push(field)) + split(s@.skip(k + 1), sep));
            } else {
                assert(split(s@, sep) =~= byte_views(fields@.push(field)));
            }
        }
        fields.push(field);
        if k < s.len() {
            start = k + 1;
        } else {
            done = true;
        }
    }
    fields
}

/// Whether two byte strings hold the same bytes.
pub fn bytes_eq(a: &[u8], b: &[u8]) -> (same: bool)
    ensures
        same == (a@ == b@),
{
    if a.len() != b.len() {
        return false;
    }
    let mut i: usize = 0;
    while i < a.len()
        invariant
            i <= a@.len(),
            a@.len() == b@.len(),
            forall|j: int| 0 <= j < i ==> a@[j] == b@[j],
        decreases a@.len() - i,
    {
        if a[i] != b[i] {
            return false;
        }
        i += 1;
    }
    assert(a@ =~= b@);
    true
}

} // verus!
