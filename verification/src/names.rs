//! Filename codec.
//!
//! A message under `new` is stored under its bare identifier.  A message
//! under `cur` is stored under `<identifier>:2,<flags>`: everything before
//! the first ":2," is the identifier, everything after it is the flag
//! text.  This module finds, splits on, and writes that separator.

use vstd::prelude::*;

verus! {

/// The separator between identifier and flag text in a `cur` filename.
pub open spec fn sep_seq() -> Seq<char> {
    seq![':', '2', ',']
}

/// Whether the separator occurs in `s` starting at position `i`.
pub open spec fn sep_at(s: Seq<char>, i: int) -> bool {
    &&& 0 <= i
    &&& i + 3 <= s.len()
    &&& s[i] == ':'
    &&& s[i + 1] == '2'
    &&& s[i + 2] == ','
}

/// The position of the first separator occurrence at or after `i`, or -1
/// if there is none.
pub open spec fn first_sep_from(s: Seq<char>, i: int) -> int
    decreases s.len() - i,
{
    if i + 3 > s.len() {
        -1
    } else if sep_at(s, i) {
        i
    } else {
        first_sep_from(s, i + 1)
    }
}

/// The position of the first separator occurrence in `s`, or -1.
pub open spec fn first_sep(s: Seq<char>) -> int {
    first_sep_from(s, 0)
}

/// Whether `s` holds the separator anywhere.
pub open spec fn has_sep(s: Seq<char>) -> bool {
    first_sep(s) >= 0
}

/// The identifier part of a `cur` filename: everything before the first
/// separator.
pub open spec fn cur_id_of(name: Seq<char>) -> Seq<char>
    recommends
        has_sep(name),
{
    name.subrange(0, first_sep(name))
}

/// The flag part of a `cur` filename: everything after the first
/// separator.
pub open spec fn cur_flags_of(name: Seq<char>) -> Seq<char>
    recommends
        has_sep(name),
{
    name.subrange(first_sep(name) + 3, name.len() as int)
}

/// A `cur` filename written for `id` with flag text `fl`.
pub open spec fn cur_name_spec(id: Seq<char>, fl: Seq<char>) -> Seq<char> {
    id + sep_seq() + fl
}

/// What `first_sep_from` returns: the first separator position at or
/// after `i`, and -1 exactly when there is none.
pub proof fn lemma_first_sep_from(s: Seq<char>, i: int)
    requires
        0 <= i,
    ensures
        first_sep_from(s, i) >= 0 ==> {
            &&& i <= first_sep_from(s, i)
            &&& sep_at(s, first_sep_from(s, i))
            &&& forall|j: int| i <= j < first_sep_from(s, i) ==> !sep_at(s, j)
        },
        first_sep_from(s, i) < 0 ==> first_sep_from(s, i) == -1 && forall|j: int|
            j >= i ==> !sep_at(s, j),
    decreases s.len() - i,
{
    if i + 3 > s.len() {
    } else if sep_at(s, i) {
    } else {
        lemma_first_sep_from(s, i + 1);
    }
}

/// In a composed `cur` filename whose identifier holds no separator of
/// its own, the first separator is exactly the one written between
/// identifier and flags, so splitting gives back the identifier and the
/// flag text.  The separator cannot straddle the boundary, because its
/// first character differs from its other two.
pub proof fn lemma_cur_name_splits(id: Seq<char>, fl: Seq<char>)
    requires
        !has_sep(id),
    ensures
        has_sep(cur_name_spec(id, fl)),
        first_sep(cur_name_spec(id, fl)) == id.len(),
        cur_id_of(cur_name_spec(id, fl)) == id,
        cur_flags_of(cur_name_spec(id, fl)) == fl,
{
    let full = cur_name_spec(id, fl);
    assert(full.len() == id.len() + 3 + fl.len());
    assert forall|k: int| 0 <= k < id.len() implies full[k] == id[k] by {
        assert(full[k] == (id + sep_seq())[k]);
    }
    assert forall|k: int| 0 <= k < 3 implies full[id.len() + k] == sep_seq()[k] by {
        assert(full[id.len() + k] == (id + sep_seq())[id.len() + k]);
    }
    assert(sep_at(full, id.len() as int));
    lemma_first_sep_from(id, 0);
    assert forall|j: int| 0 <= j < id.len() implies !sep_at(full, j) by {
        if sep_at(full, j) {
            if j + 3 <= id.len() {
                assert(sep_at(id, j));
            } else if j + 2 == id.len() {
                assert(full[j + 2] == ':');
            } else {
                assert(full[j + 1] == ':');
            }
        }
    }
    lemma_first_sep_from(full, 0);
    if first_sep(full) < 0 {
        assert(!sep_at(full, id.len() as int));
        assert(false);
    }
    if first_sep(full) < id.len() {
        assert(sep_at(full, first_sep(full)));
        assert(false);
    }
    if first_sep(full) > id.len() {
        assert(!sep_at(full, id.len() as int));
        assert(false);
    }
    assert(cur_id_of(full) =~= id);
    assert(cur_flags_of(full) =~= fl);
}

/// The position of the first separator occurrence in `name`, if any.
pub fn find_sep(name: &str) -> (r: Option<usize>)
    ensures
        r matches Some(i) ==> first_sep(name@) == i as int,
        r is None ==> first_sep(name@) == -1,
{
    let len = name.unicode_len();
    if len < 3 {
        return None;
    }
    let mut i: usize = 0;
    while i <= len - 3
        invariant
            len == name@.len(),
            3 <= len,
            i <= len - 2,
            first_sep(name@) == first_sep_from(name@, i as int),
        decreases len - i,
    {
        if name.get_char(i) == ':' && name.get_char(i + 1) == '2' && name.get_char(i + 2) == ',' {
            proof {
                assert(sep_at(name@, i as int));
            }
            return Some(i);
        }
        proof {
            assert(!sep_at(name@, i as int));
        }
        i += 1;
    }
    proof {
        assert(first_sep_from(name@, i as int) == -1);
    }
    None
}

/// Split a `cur` filename on the first separator into identifier and
/// flag text; `None` when the name holds no separator.
pub fn split_cur_name(name: &str) -> (r: Option<(String, String)>)
    ensures
        has_sep(name@) ==> (r matches Some(p) && p.0@ == cur_id_of(name@) && p.1@
            == cur_flags_of(name@)),
        !has_sep(name@) ==> r is None,
{
    match find_sep(name) {
        None => None,
        Some(i) => {
            proof {
                lemma_first_sep_from(name@, 0);
            }
            let len = name.unicode_len();
            let id = name.substring_char(0, i).to_owned();
            let fl = name.substring_char(i + 3, len).to_owned();
            Some((id, fl))
        },
    }
}

/// A `cur` filename for `id` carrying flag text `fl`.
pub fn cur_name(id: &str, fl: &str) -> (r: String)
    ensures
        r@ == cur_name_spec(id@, fl@),
{
    let mut s = id.to_owned();
    s.append(":2,");
    s.append(fl);
    proof {
        reveal_strlit(":2,");
        assert((":2,")@ =~= sep_seq());
        assert(s@ =~= cur_name_spec(id@, fl@));
    }
    s
}

} // verus!
