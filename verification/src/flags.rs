//! Flag-set algebra.
//!
//! A message under `cur` carries a set of single-character flags, stored
//! textually in its filename.  Membership is order-independent and
//! duplicate-insensitive; whenever a flag string is written back to disk it
//! is first canonicalized: duplicates are removed while the first-seen
//! order of the remaining characters is kept.  This module defines the
//! canonical form, the union and difference used by flag mutation, and the
//! algebraic laws they obey.

use vstd::prelude::*;

use crate::text::lemma_concat_contains;
use crate::text::lemma_contains_concat_left;
use crate::text::lemma_contains_split;
use crate::text::str_contains_char;

verus! {

/// The canonical form of a flag string: duplicates removed, first-seen
/// order kept.
pub open spec fn dedup(s: Seq<char>) -> Seq<char>
    decreases s.len(),
{
    if s.len() == 0 {
        Seq::empty()
    } else {
        let rest = dedup(s.drop_last());
        if s.drop_last().contains(s.last()) {
            rest
        } else {
            rest.push(s.last())
        }
    }
}

/// The flags of `s` with every flag of `rem` removed, in canonical form.
pub open spec fn remove_flags_spec(s: Seq<char>, rem: Seq<char>) -> Seq<char>
    decreases s.len(),
{
    if s.len() == 0 {
        Seq::empty()
    } else {
        let rest = remove_flags_spec(s.drop_last(), rem);
        if s.drop_last().contains(s.last()) || rem.contains(s.last()) {
            rest
        } else {
            rest.push(s.last())
        }
    }
}

/// Canonicalization neither adds nor loses flags.
pub proof fn lemma_dedup_contains(s: Seq<char>, c: char)
    ensures
        dedup(s).contains(c) == s.contains(c),
    decreases s.len(),
{
    if s.len() == 0 {
    } else {
        lemma_dedup_contains(s.drop_last(), c);
        lemma_contains_split(s, c);
        let rest = dedup(s.drop_last());
        if s.drop_last().contains(s.last()) {
        } else {
            lemma_contains_split(rest.push(s.last()), c);
            assert(rest.push(s.last()).drop_last() =~= rest);
        }
    }
}

/// A removal keeps exactly the flags of `s` that are not in `rem`.
pub proof fn lemma_remove_flags_contains(s: Seq<char>, rem: Seq<char>, c: char)
    ensures
        remove_flags_spec(s, rem).contains(c) == (s.contains(c) && !rem.contains(c)),
    decreases s.len(),
{
    if s.len() == 0 {
    } else {
        lemma_remove_flags_contains(s.drop_last(), rem, c);
        lemma_contains_split(s, c);
        let rest = remove_flags_spec(s.drop_last(), rem);
        if s.drop_last().contains(s.last()) || rem.contains(s.last()) {
        } else {
            lemma_contains_split(rest.push(s.last()), c);
            assert(rest.push(s.last()).drop_last() =~= rest);
        }
    }
}

/// The canonical form holds each flag at most once.
pub proof fn lemma_dedup_distinct(s: Seq<char>)
    ensures
        forall|i: int, j: int|
            0 <= i < j < dedup(s).len() ==> #[trigger] dedup(s)[i] != #[trigger] dedup(s)[j],
    decreases s.len(),
{
    if s.len() == 0 {
    } else {
        lemma_dedup_distinct(s.drop_last());
        let rest = dedup(s.drop_last());
        if s.drop_last().contains(s.last()) {
        } else {
            lemma_dedup_contains(s.drop_last(), s.last());
            let out = rest.push(s.last());
            assert forall|i: int, j: int| 0 <= i < j < out.len() implies out[i] != out[j] by {
                if j < out.len() - 1 {
                    assert(out[i] == rest[i] && out[j] == rest[j]);
                } else {
                    assert(out[j] == s.last());
                    assert(out[i] == rest[i]);
                    if rest[i] == s.last() {
                        assert(rest.contains(s.last()));
                    }
                }
            }
        }
    }
}

/// A string with no repeated character is already canonical.
pub proof fn lemma_dedup_of_distinct(s: Seq<char>)
    requires
        forall|i: int, j: int| 0 <= i < j < s.len() ==> #[trigger] s[i] != #[trigger] s[j],
    ensures
        dedup(s) == s,
    decreases s.len(),
{
    if s.len() == 0 {
        assert(dedup(s) =~= s);
    } else {
        assert(forall|i: int, j: int|
            0 <= i < j < s.drop_last().len() ==> #[trigger] s.drop_last()[i]
                != #[trigger] s.drop_last()[j]) by {
            assert(forall|i: int|
                0 <= i < s.drop_last().len() ==> #[trigger] s.drop_last()[i] == s[i]);
        }
        lemma_dedup_of_distinct(s.drop_last());
        if s.drop_last().contains(s.last()) {
            let i = choose|i: int|
                0 <= i < s.drop_last().len() && s.drop_last()[i] == s.last();
            assert(s[i] == s[s.len() - 1]);
            assert(false);
        }
        assert(dedup(s) =~= s);
    }
}

/// Flag mutation is set algebra on membership: the union used by
/// add_flags holds the flags of either operand, the difference used by
/// remove_flags holds the flags of the first that are not in the second.
pub proof fn lemma_flag_membership(cur: Seq<char>, other: Seq<char>, c: char)
    ensures
        dedup(cur + other).contains(c) == (cur.contains(c) || other.contains(c)),
        remove_flags_spec(cur, other).contains(c) == (cur.contains(c) && !other.contains(c)),
{
    lemma_dedup_contains(cur + other, c);
    lemma_concat_contains(cur, other, c);
    lemma_remove_flags_contains(cur, other, c);
}

/// Canonicalizing twice is the same as canonicalizing once.
pub proof fn lemma_dedup_idempotent(s: Seq<char>)
    ensures
        dedup(dedup(s)) == dedup(s),
{
    lemma_dedup_distinct(s);
    lemma_dedup_of_distinct(dedup(s));
}

/// Adding flags that are all already present does not change the
/// canonical flag string.
pub proof fn lemma_add_present_flags(cur: Seq<char>, extra: Seq<char>)
    requires
        forall|c: char| extra.contains(c) ==> cur.contains(c),
    ensures
        dedup(cur + extra) == dedup(cur),
    decreases extra.len(),
{
    if extra.len() == 0 {
        assert(cur + extra =~= cur);
    } else {
        let whole = cur + extra;
        assert(whole.drop_last() =~= cur + extra.drop_last());
        assert(whole.last() == extra.last()) by {
            assert(whole[whole.len() - 1] == extra[extra.len() - 1]);
        }
        assert(extra.contains(extra.last())) by {
            assert(extra[extra.len() - 1] == extra.last());
        }
        assert(cur.contains(extra.last()));
        lemma_contains_concat_left(cur, extra.drop_last(), extra.last());
        assert(forall|c: char| extra.drop_last().contains(c) ==> cur.contains(c)) by {
            assert forall|c: char| extra.drop_last().contains(c) implies cur.contains(c) by {
                lemma_contains_split(extra, c);
            }
        }
        lemma_add_present_flags(cur, extra.drop_last());
    }
}

/// Removing flags none of which are present is the same as just
/// canonicalizing.
pub proof fn lemma_remove_absent_flags(cur: Seq<char>, rem: Seq<char>)
    requires
        forall|c: char| rem.contains(c) ==> !cur.contains(c),
    ensures
        remove_flags_spec(cur, rem) == dedup(cur),
    decreases cur.len(),
{
    if cur.len() == 0 {
    } else {
        assert(forall|c: char| rem.contains(c) ==> !cur.drop_last().contains(c)) by {
            assert forall|c: char| rem.contains(c) implies !cur.drop_last().contains(c) by {
                lemma_contains_split(cur, c);
            }
        }
        lemma_remove_absent_flags(cur.drop_last(), rem);
        assert(cur.contains(cur.last())) by {
            assert(cur[cur.len() - 1] == cur.last());
        }
        assert(!rem.contains(cur.last()));
    }
}

/// The canonical form of `raw`: duplicates dropped, first-seen order kept.
pub fn canonical_flags(raw: &str) -> (r: String)
    ensures
        r@ == dedup(raw@),
{
    let len = raw.unicode_len();
    let mut out = String::new();
    let mut i: usize = 0;
    while i < len
        invariant
            len == raw@.len(),
            i <= len,
            out@ == dedup(raw@.subrange(0, i as int)),
        decreases len - i,
    {
        let ghost prefix = raw@.subrange(0, i as int);
        let ghost next = raw@.subrange(0, i + 1);
        let c = raw.get_char(i);
        proof {
            assert(next.drop_last() =~= prefix);
            assert(next.last() == raw@[i as int]);
            lemma_dedup_contains(prefix, c);
        }
        if !str_contains_char(out.as_str(), c) {
            let piece = raw.substring_char(i, i + 1);
            proof {
                assert(piece@ =~= seq![raw@[i as int]]);
                assert(dedup(next) =~= dedup(prefix).push(c));
                assert(out@ + piece@ =~= dedup(next));
            }
            out.append(piece);
        }
        i += 1;
    }
    proof {
        assert(raw@.subrange(0, len as int) =~= raw@);
    }
    out
}

/// The canonical union of a current flag string and newly added flags.
pub fn union_flags(cur: &str, extra: &str) -> (r: String)
    ensures
        r@ == dedup(cur@ + extra@),
{
    let combined = cur.to_owned().concat(extra);
    canonical_flags(combined.as_str())
}

/// The canonical difference: the flags of `cur` that are not in `rem`.
pub fn difference_flags(cur: &str, rem: &str) -> (r: String)
    ensures
        r@ == remove_flags_spec(cur@, rem@),
{
    let len = cur.unicode_len();
    let mut out = String::new();
    let mut i: usize = 0;
    while i < len
        invariant
            len == cur@.len(),
            i <= len,
            out@ == remove_flags_spec(cur@.subrange(0, i as int), rem@),
        decreases len - i,
    {
        let ghost prefix = cur@.subrange(0, i as int);
        let ghost next = cur@.subrange(0, i + 1);
        let c = cur.get_char(i);
        proof {
            assert(next.drop_last() =~= prefix);
            assert(next.last() == cur@[i as int]);
            lemma_remove_flags_contains(prefix, rem@, c);
        }
        if !str_contains_char(out.as_str(), c) && !str_contains_char(rem, c) {
            let piece = cur.substring_char(i, i + 1);
            proof {
                assert(piece@ =~= seq![cur@[i as int]]);
                assert(remove_flags_spec(next, rem@) =~= remove_flags_spec(prefix, rem@).push(c));
                assert(out@ + piece@ =~= remove_flags_spec(next, rem@));
            }
            out.append(piece);
        }
        i += 1;
    }
    proof {
        assert(cur@.subrange(0, len as int) =~= cur@);
    }
    out
}

} // verus!
