//! Character-level helpers on string slices.
//!
//! Filenames, identifiers and flag suffixes are all plain strings; the
//! operations here are the small verified building blocks that the codec
//! and flag modules assemble.

use vstd::prelude::*;

verus! {

/// Whether two string slices hold the same character sequence.
pub fn str_equal(a: &str, b: &str) -> (r: bool)
    ensures
        r == (a@ == b@),
{
    let alen = a.unicode_len();
    let blen = b.unicode_len();
    if alen != blen {
        return false;
    }
    let mut i: usize = 0;
    while i < alen
        invariant
            alen == a@.len(),
            blen == b@.len(),
            alen == blen,
            i <= alen,
            forall|j: int| 0 <= j < i ==> a@[j] == b@[j],
        decreases alen - i,
    {
        if a.get_char(i) != b.get_char(i) {
            return false;
        }
        i += 1;
    }
    proof {
        assert(a@ =~= b@);
    }
    true
}

/// Whether `s` contains the character `c`.
pub fn str_contains_char(s: &str, c: char) -> (r: bool)
    ensures
        r == s@.contains(c),
{
    let len = s.unicode_len();
    let mut i: usize = 0;
    while i < len
        invariant
            len == s@.len(),
            i <= len,
            forall|j: int| 0 <= j < i ==> s@[j] != c,
        decreases len - i,
    {
        if s.get_char(i) == c {
            proof {
                assert(s@[i as int] == c);
            }
            return true;
        }
        i += 1;
    }
    false
}

/// Membership in a sequence with the last element split off.
pub proof fn lemma_contains_split(s: Seq<char>, c: char)
    requires
        s.len() > 0,
    ensures
        s.contains(c) == (s.drop_last().contains(c) || s.last() == c),
{
    if s.contains(c) {
        let i = choose|i: int| 0 <= i < s.len() && s[i] == c;
        if i < s.len() - 1 {
            assert(s.drop_last()[i] == c);
        }
    }
    if s.drop_last().contains(c) {
        let i = choose|i: int| 0 <= i < s.drop_last().len() && s.drop_last()[i] == c;
        assert(s[i] == c);
    }
    if s.last() == c {
        assert(s[s.len() - 1] == c);
    }
}

/// Membership carries from the left operand into a concatenation.
pub proof fn lemma_contains_concat_left(a: Seq<char>, b: Seq<char>, c: char)
    requires
        a.contains(c),
    ensures
        (a + b).contains(c),
{
    let i = choose|i: int| 0 <= i < a.len() && a[i] == c;
    assert((a + b)[i] == c);
}

/// Membership carries from the right operand into a concatenation.
pub proof fn lemma_contains_concat_right(a: Seq<char>, b: Seq<char>, c: char)
    requires
        b.contains(c),
    ensures
        (a + b).contains(c),
{
    let i = choose|i: int| 0 <= i < b.len() && b[i] == c;
    assert((a + b)[i + a.len()] == c);
}

/// Membership in a concatenation comes from one of the operands.
pub proof fn lemma_concat_contains(a: Seq<char>, b: Seq<char>, c: char)
    ensures
        (a + b).contains(c) == (a.contains(c) || b.contains(c)),
{
    if (a + b).contains(c) {
        let i = choose|i: int| 0 <= i < (a + b).len() && (a + b)[i] == c;
        if i < a.len() {
            assert(a[i] == c);
        } else {
            assert(b[i - a.len()] == c);
        }
    }
    if a.contains(c) {
        lemma_contains_concat_left(a, b, c);
    }
    if b.contains(c) {
        lemma_contains_concat_right(a, b, c);
    }
}

} // verus!
