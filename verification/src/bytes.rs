//! Byte-sequence helpers shared by the record codec: the `::` field
//! delimiter, scanning for its first occurrence, and byte equality.

use vstd::prelude::*;

verus! {

/// The byte value of `:`.
pub const COLON: u8 = 58;

/// The byte value of a line feed.
pub const NEWLINE: u8 = 10;

/// The byte value of `-`.
pub const MINUS: u8 = 45;

/// The two-byte field delimiter `::` starts at index `i` of `s`.
pub open spec fn sep_at(s: Seq<u8>, i: int) -> bool {
    0 <= i && i + 2 <= s.len() && s[i] == COLON && s[i + 1] == COLON
}

/// `s` contains the field delimiter `::` somewhere.
pub open spec fn has_sep(s: Seq<u8>) -> bool {
    exists|i: int| sep_at(s, i)
}

/// `s` contains the byte `b` somewhere.
pub open spec fn contains_byte(s: Seq<u8>, b: u8) -> bool {
    exists|i: int| 0 <= i < s.len() && s[i] == b
}

/// The index of the first delimiter at or after `from`, if any.
pub open spec fn first_sep_from(s: Seq<u8>, from: int) -> Option<int>
    decreases s.len() - from,
    when 0 <= from
{
    if from + 2 > s.len() {
        None
    } else if sep_at(s, from) {
        Some(from)
    } else {
        first_sep_from(s, from + 1)
    }
}

/// The index of the first occurrence of the delimiter in `s`, if any.
pub open spec fn first_sep(s: Seq<u8>) -> Option<int> {
    first_sep_from(s, 0)
}

proof fn lemma_first_sep_from_reaches(s: Seq<u8>, from: int, i: int)
    requires
        0 <= from <= i,
        sep_at(s, i),
        forall|j: int| from <= j < i ==> !sep_at(s, j),
    ensures
        first_sep_from(s, from) == Some(i),
    decreases i - from,
{
    if from == i {
    } else {
        assert(!sep_at(s, from));
        lemma_first_sep_from_reaches(s, from + 1, i);
    }
}

/// `first_sep` yields exactly the least delimiter position.
pub proof fn lemma_first_sep_characterization(s: Seq<u8>, i: int)
    requires
        sep_at(s, i),
        forall|j: int| 0 <= j < i ==> !sep_at(s, j),
    ensures
        first_sep(s) == Some(i),
{
    lemma_first_sep_from_reaches(s, 0, i);
}

/// Finds the first occurrence of the `::` delimiter in `s`.
pub fn find_sep(s: &[u8]) -> (r: Option<usize>)
    ensures
        match r {
            Some(i) => first_sep(s@) == Some(i as int) && sep_at(s@, i as int),
            None => first_sep(s@) is None,
        },
{
    if s.len() < 2 {
        return None;
    }
    let mut i: usize = 0;
    while i < s.len() - 1
        invariant
            s@.len() >= 2,
            0 <= i <= s@.len() - 1,
            first_sep(s@) == first_sep_from(s@, i as int),
        decreases s@.len() - i,
    {
        if s[i] == COLON && s[i + 1] == COLON {
            assert(sep_at(s@, i as int));
            return Some(i);
        }
        assert(!sep_at(s@, i as int));
        i += 1;
    }
    None
}

/// A byte occurs in a concatenation exactly when it occurs in one of the
/// two parts.
pub proof fn lemma_concat_contains_byte(a: Seq<u8>, b: Seq<u8>, x: u8)
    ensures
        contains_byte(a + b, x) <==> (contains_byte(a, x) || contains_byte(b, x)),
{
    let s = a + b;
    if contains_byte(s, x) {
        let i = choose|i: int| 0 <= i < s.len() && s[i] == x;
        if i < a.len() {
            assert(a[i] == x);
        } else {
            assert(b[i - a.len()] == x);
        }
    }
    if contains_byte(a, x) {
        let i = choose|i: int| 0 <= i < a.len() && a[i] == x;
        assert(s[i] == x);
    }
    if contains_byte(b, x) {
        let i = choose|i: int| 0 <= i < b.len() && b[i] == x;
        assert(s[a.len() + i] == x);
    }
}

/// Byte-for-byte equality of two slices.
pub fn bytes_eq(a: &[u8], b: &[u8]) -> (r: bool)
    ensures
        r == (a@ == b@),
{
    if a.len() != b.len() {
        return false;
    }
    let mut i: usize = 0;
    while i < a.len()
        invariant
            0 <= i <= a@.len(),
            a@.len() == b@.len(),
            forall|j: int| 0 <= j < i ==> a@[j] == b@[j],
        decreases a@.len() - i,
    {
        if a[i] != b[i] {
            return false;
        }
        i += 1;
    }
    assert(a@ =~= b@);
    true
}

/// A fresh vector with the same bytes as `src`.
pub fn copy_bytes(src: &[u8]) -> (r: Vec<u8>)
    ensures
        r@ == src@,
{
    let mut r: Vec<u8> = Vec::new();
    push_all(&mut r, src);
    assert(r@ =~= src@);
    r
}

/// Appends `src` to `dst`.
pub fn push_all(dst: &mut Vec<u8>, src: &[u8])
    ensures
        final(dst)@ == old(dst)@ + src@,
{
    let mut i: usize = 0;
    while i < src.len()
        invariant
            0 <= i <= src@.len(),
            dst@ == old(dst)@ + src@.take(i as int),
        decreases src@.len() - i,
    {
        dst.push(src[i]);
        assert(old(dst)@ + src@.take(i as int) + seq![src@[i as int]] =~= old(dst)@ + src@.take(
            i as int + 1,
        ));
        i += 1;
    }
    assert(src@.take(src@.len() as int) =~= src@);
}

} // verus!
