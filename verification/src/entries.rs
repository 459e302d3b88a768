//! Enumeration of one subfolder.
//!
//! The caller lists a directory once and hands the filenames over; the
//! enumerator walks them in order, silently skipping names that start
//! with a dot, taking a `new` filename whole as the identifier, and
//! splitting a `cur` filename on ":2,".  A `cur` filename without the
//! separator yields a malformed-entry error, one per offending file.
//! The order of entries is whatever order the caller listed.

use vstd::prelude::*;

use crate::entry::MailEntry;
use crate::names::cur_flags_of;
use crate::names::cur_id_of;
use crate::names::has_sep;
use crate::names::split_cur_name;

verus! {

/// The two listable subfolders of a maildir.
#[derive(Clone, Copy, PartialEq, Eq, Structural)]
pub enum Subfolder {
    /// Messages delivered but not yet moved to `cur`; no flag suffix.
    New,
    /// Messages moved out of `new`; filenames carry a flag suffix.
    Cur,
}

/// What a scan yields for one filename.
pub enum ScanItem {
    /// A well-formed message filename.
    Message { id: Seq<char>, flags: Seq<char>, path: Seq<char> },
    /// A filename in `cur` without the flag separator.
    Malformed { name: Seq<char> },
}

/// The error for a filename in `cur` without the flag separator: a
/// non-maildir file found in the maildir.
#[derive(Debug)]
pub struct MalformedEntry {
    /// The offending filename.
    pub name: String,
}

/// Whether enumeration silently skips the filename.
pub open spec fn is_hidden(name: Seq<char>) -> bool {
    name.len() > 0 && name[0] == '.'
}

/// The path of an entry: directory, '/' and filename.
pub open spec fn entry_path_spec(dir: Seq<char>, name: Seq<char>) -> Seq<char> {
    dir + seq!['/'] + name
}

/// What a scan yields for one non-hidden filename.
pub open spec fn classify_spec(sub: Subfolder, dir: Seq<char>, name: Seq<char>) -> ScanItem {
    match sub {
        Subfolder::New => ScanItem::Message {
            id: name,
            flags: Seq::empty(),
            path: entry_path_spec(dir, name),
        },
        Subfolder::Cur => if has_sep(name) {
            ScanItem::Message {
                id: cur_id_of(name),
                flags: cur_flags_of(name),
                path: entry_path_spec(dir, name),
            }
        } else {
            ScanItem::Malformed { name }
        },
    }
}

/// Everything one scan of `names` yields, in order.
pub open spec fn scan_spec(sub: Subfolder, dir: Seq<char>, names: Seq<Seq<char>>) -> Seq<ScanItem>
    decreases names.len(),
{
    if names.len() == 0 {
        Seq::empty()
    } else {
        let head = if is_hidden(names[0]) {
            Seq::empty()
        } else {
            seq![classify_spec(sub, dir, names[0])]
        };
        head + scan_spec(sub, dir, names.drop_first())
    }
}

/// The item a yielded result stands for.
pub open spec fn yielded_spec(r: Result<MailEntry, MalformedEntry>) -> ScanItem {
    match r {
        Ok(e) => ScanItem::Message {
            id: e.id_spec(),
            flags: e.flags_spec(),
            path: e.path_spec(),
        },
        Err(m) => ScanItem::Malformed { name: m.name@ },
    }
}

/// Unfolding one scan step.
pub proof fn lemma_scan_step(sub: Subfolder, dir: Seq<char>, names: Seq<Seq<char>>)
    requires
        names.len() > 0,
    ensures
        is_hidden(names[0]) ==> scan_spec(sub, dir, names) == scan_spec(
            sub,
            dir,
            names.drop_first(),
        ),
        !is_hidden(names[0]) ==> scan_spec(sub, dir, names) == seq![
            classify_spec(sub, dir, names[0]),
        ] + scan_spec(sub, dir, names.drop_first()),
{
    if is_hidden(names[0]) {
        assert(Seq::<ScanItem>::empty() + scan_spec(sub, dir, names.drop_first()) =~= scan_spec(
            sub,
            dir,
            names.drop_first(),
        ));
    }
}

/// A scan yields at most one item per listed filename.
pub proof fn lemma_scan_len(sub: Subfolder, dir: Seq<char>, names: Seq<Seq<char>>)
    ensures
        scan_spec(sub, dir, names).len() <= names.len(),
    decreases names.len(),
{
    if names.len() > 0 {
        lemma_scan_len(sub, dir, names.drop_first());
    }
}

/// A hidden filename yields nothing: removing it from the listing does
/// not change what the scan produces.
pub proof fn lemma_scan_skips_hidden(
    sub: Subfolder,
    dir: Seq<char>,
    names: Seq<Seq<char>>,
    i: int,
)
    requires
        0 <= i < names.len(),
        is_hidden(names[i]),
    ensures
        scan_spec(sub, dir, names) == scan_spec(sub, dir, names.remove(i)),
    decreases names.len(),
{
    lemma_scan_step(sub, dir, names);
    if i == 0 {
        assert(names.remove(0) =~= names.drop_first());
    } else {
        lemma_scan_skips_hidden(sub, dir, names.drop_first(), i - 1);
        assert(names.remove(i).drop_first() =~= names.drop_first().remove(i - 1));
        assert(names.remove(i)[0] == names[0]);
        lemma_scan_step(sub, dir, names.remove(i));
    }
}

/// A non-hidden name in `cur` without the separator yields exactly one
/// malformed item: no silent drop, no abort of the rest of the scan.
pub proof fn lemma_malformed_yields_one(dir: Seq<char>, name: Seq<char>)
    requires
        !is_hidden(name),
        !has_sep(name),
    ensures
        scan_spec(Subfolder::Cur, dir, seq![name]) == seq![ScanItem::Malformed { name }],
{
    let names: Seq<Seq<char>> = seq![name];
    assert(names.drop_first() =~= Seq::<Seq<char>>::empty());
    lemma_scan_step(Subfolder::Cur, dir, names);
    assert(seq![classify_spec(Subfolder::Cur, dir, name)] + Seq::<ScanItem>::empty() =~= seq![
        ScanItem::Malformed { name },
    ]);
}

/// A lazily consumed, forward-only enumeration of one subfolder's
/// filenames.
pub struct MailEntries {
    subfolder: Subfolder,
    dir_path: String,
    names: Vec<String>,
    idx: usize,
}

impl MailEntries {
    /// Which subfolder is being enumerated.
    pub closed spec fn sub_spec(&self) -> Subfolder {
        self.subfolder
    }

    /// The path of the directory being enumerated.
    pub closed spec fn dir_spec(&self) -> Seq<char> {
        self.dir_path@
    }

    /// The enumerator has not run past its listing.
    pub closed spec fn wf(&self) -> bool {
        self.idx <= self.names.len()
    }

    /// The filenames not yet consumed.
    pub closed spec fn remaining(&self) -> Seq<Seq<char>> {
        self.names@.map(|i: int, n: String| n@).skip(self.idx as int)
    }

    /// What this enumerator will still yield.
    pub open spec fn pending(&self) -> Seq<ScanItem> {
        scan_spec(self.sub_spec(), self.dir_spec(), self.remaining())
    }

    /// An enumerator over one subfolder, fed with the filenames the
    /// caller listed there.  A directory that could not be opened is
    /// handed over as an empty listing.
    pub fn new(subfolder: Subfolder, dir_path: String, names: Vec<String>) -> (r: MailEntries)
        ensures
            r.wf(),
            r.sub_spec() == subfolder,
            r.dir_spec() == dir_path@,
            r.remaining() == names@.map(|i: int, n: String| n@),
    {
        let r = MailEntries { subfolder, dir_path, names, idx: 0 };
        proof {
            assert(r.remaining() =~= r.names@.map(|i: int, n: String| n@));
        }
        r
    }

    /// The next record or malformed-entry error; `None` once the
    /// listing is exhausted.  Hidden filenames are skipped silently; a
    /// yielded record has no content cached yet.
    pub fn next_entry(&mut self) -> (r: Option<Result<MailEntry, MalformedEntry>>)
        requires
            old(self).wf(),
        ensures
            final(self).wf(),
            final(self).sub_spec() == old(self).sub_spec(),
            final(self).dir_spec() == old(self).dir_spec(),
            match r {
                None => old(self).pending() == Seq::<ScanItem>::empty()
                    && final(self).pending() == Seq::<ScanItem>::empty(),
                Some(item) => old(self).pending() == seq![yielded_spec(item)]
                    + final(self).pending(),
            },
            r matches Some(Ok(e)) ==> e.data_spec() is None,
    {
        loop
            invariant
                self.wf(),
                self.sub_spec() == old(self).sub_spec(),
                self.dir_spec() == old(self).dir_spec(),
                self.pending() == old(self).pending(),
            decreases self.names@.len() - self.idx,
        {
            if self.idx >= self.names.len() {
                proof {
                    assert(self.remaining() =~= Seq::<Seq<char>>::empty());
                }
                return None;
            }
            let name = self.names[self.idx].clone();
            let ghost rem = self.remaining();
            proof {
                assert(rem[0] == name@);
                assert(rem.drop_first() =~= self.names@.map(|i: int, n: String| n@).skip(
                    self.idx + 1,
                ));
                lemma_scan_step(self.sub_spec(), self.dir_spec(), rem);
            }
            let hidden = name.as_str().unicode_len() > 0 && name.as_str().get_char(0) == '.';
            self.idx = self.idx + 1;
            if hidden {
                continue ;
            }
            let mut path = self.dir_path.clone();
            path.append("/");
            path.append(name.as_str());
            proof {
                reveal_strlit("/");
                assert(("/")@ =~= seq!['/']);
                assert(path@ =~= entry_path_spec(self.dir_spec(), name@));
            }
            match self.subfolder {
                Subfolder::New => {
                    let entry = MailEntry::new(name, String::new(), path);
                    return Some(Ok(entry));
                },
                Subfolder::Cur => {
                    match split_cur_name(name.as_str()) {
                        Some(parts) => {
                            let (idp, flp) = parts;
                            let entry = MailEntry::new(idp, flp, path);
                            return Some(Ok(entry));
                        },
                        None => {
                            return Some(Err(MalformedEntry { name }));
                        },
                    }
                },
            }
        }
    }

    /// Count everything the enumerator still yields, consuming it.
    pub fn count_remaining(&mut self) -> (r: usize)
        requires
            old(self).wf(),
        ensures
            r == old(self).pending().len(),
    {
        let ghost orig = old(self).pending();
        proof {
            lemma_scan_len(self.sub_spec(), self.dir_spec(), self.remaining());
        }
        let mut n: usize = 0;
        loop
            invariant
                self.wf(),
                orig == old(self).pending(),
                orig.len() <= usize::MAX,
                n + self.pending().len() == orig.len(),
            decreases self.pending().len(),
        {
            match self.next_entry() {
                None => {
                    return n;
                },
                Some(_) => {
                    n = n + 1;
                },
            }
        }
    }
}

} // verus!
