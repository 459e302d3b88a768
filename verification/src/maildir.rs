//! The mailbox handle.
//!
//! A `Maildir` is an immutable reference to a mailbox root, the directory
//! holding `tmp`, `new` and `cur`.  Every mailbox operation resolves to
//! plain filesystem steps — list a directory, create a file, rename,
//! remove — on paths computed here.  The functions below compute those
//! paths and make the operations' decisions: where a delivery stages and
//! publishes, where a flag change renames to, when a copy is refused as a
//! self-copy, and which record a lookup returns.

use vstd::prelude::*;

use crate::entries::MailEntries;
use crate::entries::ScanItem;
use crate::entries::Subfolder;
use crate::entries::entry_path_spec;
use crate::entries::scan_spec;
use crate::entry::MailEntry;
use crate::errors::MaildirError;
use crate::flags::canonical_flags;
use crate::flags::dedup;
use crate::flags::difference_flags;
use crate::flags::lemma_dedup_contains;
use crate::flags::lemma_dedup_idempotent;
use crate::flags::remove_flags_spec;
use crate::flags::union_flags;
use crate::ident::staging_name;
use crate::ident::staging_name_spec;
use crate::names::cur_name;
use crate::names::cur_name_spec;
use crate::names::has_sep;
use crate::names::lemma_cur_name_splits;
use crate::text::str_equal;

verus! {

/// The path of the `new` subdirectory under `root`.
pub open spec fn new_dir_spec(root: Seq<char>) -> Seq<char> {
    root + seq!['/', 'n', 'e', 'w']
}

/// The path of the `cur` subdirectory under `root`.
pub open spec fn cur_dir_spec(root: Seq<char>) -> Seq<char> {
    root + seq!['/', 'c', 'u', 'r']
}

/// The path of the `tmp` subdirectory under `root`.
pub open spec fn tmp_dir_spec(root: Seq<char>) -> Seq<char> {
    root + seq!['/', 't', 'm', 'p']
}

/// The filenames of a listing, as character sequences.
pub open spec fn name_views(names: Seq<String>) -> Seq<Seq<char>> {
    names.map(|i: int, n: String| n@)
}

/// Where a copy of a message lands in the mailbox rooted at `root`:
/// under `cur` with the canonical flags when any flag text is present,
/// else under `new`.
pub open spec fn copy_dest_spec(root: Seq<char>, id: Seq<char>, fl: Seq<char>) -> Seq<char> {
    if fl.len() == 0 {
        entry_path_spec(new_dir_spec(root), id)
    } else {
        entry_path_spec(cur_dir_spec(root), cur_name_spec(id, dedup(fl)))
    }
}

/// The first well-formed record in `items` whose identifier is `id`;
/// malformed entries are passed over.
pub open spec fn find_in_scan(items: Seq<ScanItem>, id: Seq<char>) -> Option<ScanItem>
    decreases items.len(),
{
    if items.len() == 0 {
        None
    } else {
        match items[0] {
            ScanItem::Message { id: mid, .. } => if mid == id {
                Some(items[0])
            } else {
                find_in_scan(items.drop_first(), id)
            },
            ScanItem::Malformed { .. } => find_in_scan(items.drop_first(), id),
        }
    }
}

/// A lookup over both subfolders: `new` first, short-circuiting, then
/// `cur`.
pub open spec fn find_spec(
    new_items: Seq<ScanItem>,
    cur_items: Seq<ScanItem>,
    id: Seq<char>,
) -> Option<ScanItem> {
    match find_in_scan(new_items, id) {
        Some(x) => Some(x),
        None => find_in_scan(cur_items, id),
    }
}

/// Unfolding one lookup step.
proof fn lemma_find_step(x: ScanItem, rest: Seq<ScanItem>, id: Seq<char>)
    ensures
        find_in_scan(seq![x] + rest, id) == (match x {
            ScanItem::Message { id: mid, .. } => if mid == id {
                Some(x)
            } else {
                find_in_scan(rest, id)
            },
            ScanItem::Malformed { .. } => find_in_scan(rest, id),
        }),
{
    let items = seq![x] + rest;
    assert(items[0] == x);
    assert(items.drop_first() =~= rest);
}

/// Walk an enumerator to the first record whose identifier is `id`.
fn find_in_entries(entries: &mut MailEntries, id: &str) -> (r: Option<MailEntry>)
    requires
        old(entries).wf(),
    ensures
        match r {
            Some(e) => {
                &&& find_in_scan(old(entries).pending(), id@) == Some(
                    ScanItem::Message {
                        id: e.id_spec(),
                        flags: e.flags_spec(),
                        path: e.path_spec(),
                    },
                )
                &&& e.id_spec() == id@
                &&& e.data_spec() is None
            },
            None => find_in_scan(old(entries).pending(), id@) is None,
        },
{
    loop
        invariant
            entries.wf(),
            find_in_scan(old(entries).pending(), id@) == find_in_scan(entries.pending(), id@),
        decreases entries.pending().len(),
    {
        match entries.next_entry() {
            None => {
                return None;
            },
            Some(item) => {
                proof {
                    lemma_find_step(
                        crate::entries::yielded_spec(item),
                        entries.pending(),
                        id@,
                    );
                }
                match item {
                    Ok(e) => {
                        if str_equal(e.id(), id) {
                            return Some(e);
                        }
                    },
                    Err(_) => {},
                }
            },
        }
    }
}

/// The not-found decision shared by delete and the flag mutations: a
/// lookup that came back empty is the not-found error kind.
pub fn require_found(found: Option<MailEntry>) -> (r: Result<MailEntry, MaildirError>)
    ensures
        match found {
            Some(e) => r matches Ok(x) && x == e,
            None => r matches Err(er) && er is NotFound,
        },
{
    match found {
        Some(e) => Ok(e),
        None => Err(MaildirError::NotFound),
    }
}

/// A path `dir/name`.
fn join(dir: &str, name: &str) -> (r: String)
    ensures
        r@ == entry_path_spec(dir@, name@),
{
    let mut p = dir.to_owned();
    p.append("/");
    p.append(name);
    proof {
        reveal_strlit("/");
        assert(("/")@ =~= seq!['/']);
        assert(p@ =~= entry_path_spec(dir@, name@));
    }
    p
}

/// A mailbox: an immutable handle on the root directory that holds
/// `tmp`, `new` and `cur`.
pub struct Maildir {
    path: String,
}

impl Maildir {
    /// The root path this handle was created from.
    pub closed spec fn root(&self) -> Seq<char> {
        self.path@
    }

    /// The path of the maildir base folder.
    pub fn path(&self) -> (r: &str)
        ensures
            r@ == self.root(),
    {
        self.path.as_str()
    }

    /// The path of the `new` subdirectory.
    pub fn new_dir(&self) -> (r: String)
        ensures
            r@ == new_dir_spec(self.root()),
    {
        let mut p = self.path.clone();
        p.append("/new");
        proof {
            reveal_strlit("/new");
            assert(("/new")@ =~= seq!['/', 'n', 'e', 'w']);
            assert(p@ =~= new_dir_spec(self.root()));
        }
        p
    }

    /// The path of the `cur` subdirectory.
    pub fn cur_dir(&self) -> (r: String)
        ensures
            r@ == cur_dir_spec(self.root()),
    {
        let mut p = self.path.clone();
        p.append("/cur");
        proof {
            reveal_strlit("/cur");
            assert(("/cur")@ =~= seq!['/', 'c', 'u', 'r']);
            assert(p@ =~= cur_dir_spec(self.root()));
        }
        p
    }

    /// The path of the `tmp` subdirectory.
    pub fn tmp_dir(&self) -> (r: String)
        ensures
            r@ == tmp_dir_spec(self.root()),
    {
        let mut p = self.path.clone();
        p.append("/tmp");
        proof {
            reveal_strlit("/tmp");
            assert(("/tmp")@ =~= seq!['/', 't', 'm', 'p']);
            assert(p@ =~= tmp_dir_spec(self.root()));
        }
        p
    }

    /// The three subdirectory paths a mailbox needs, in the order cur,
    /// new, tmp; creating each (and any missing parent) is idempotent.
    pub fn subdir_paths(&self) -> (r: Vec<String>)
        ensures
            r@.len() == 3,
            r@[0]@ == cur_dir_spec(self.root()),
            r@[1]@ == new_dir_spec(self.root()),
            r@[2]@ == tmp_dir_spec(self.root()),
    {
        let mut v: Vec<String> = Vec::new();
        v.push(self.cur_dir());
        v.push(self.new_dir());
        v.push(self.tmp_dir());
        v
    }

    /// The enumerator for `new`, fed with the filenames the caller
    /// listed there.
    pub fn list_new(&self, names: Vec<String>) -> (r: MailEntries)
        ensures
            r.wf(),
            r.sub_spec() == Subfolder::New,
            r.dir_spec() == new_dir_spec(self.root()),
            r.remaining() == name_views(names@),
    {
        MailEntries::new(Subfolder::New, self.new_dir(), names)
    }

    /// The enumerator for `cur`, fed with the filenames the caller
    /// listed there.
    pub fn list_cur(&self, names: Vec<String>) -> (r: MailEntries)
        ensures
            r.wf(),
            r.sub_spec() == Subfolder::Cur,
            r.dir_spec() == cur_dir_spec(self.root()),
            r.remaining() == name_views(names@),
    {
        MailEntries::new(Subfolder::Cur, self.cur_dir(), names)
    }

    /// Find the message with the given identifier: scan the `new`
    /// listing first, short-circuiting, then `cur`.  Absent when
    /// neither scan has a well-formed record under that identifier.
    pub fn find(&self, new_names: Vec<String>, cur_names: Vec<String>, id: &str) -> (r: Option<
        MailEntry,
    >)
        ensures
            ({
                let found = find_spec(
                    scan_spec(Subfolder::New, new_dir_spec(self.root()), name_views(new_names@)),
                    scan_spec(Subfolder::Cur, cur_dir_spec(self.root()), name_views(cur_names@)),
                    id@,
                );
                match r {
                    Some(e) => {
                        &&& found == Some(
                            ScanItem::Message {
                                id: e.id_spec(),
                                flags: e.flags_spec(),
                                path: e.path_spec(),
                            },
                        )
                        &&& e.id_spec() == id@
                        &&& e.data_spec() is None
                    },
                    None => found is None,
                }
            }),
    {
        let mut in_new = self.list_new(new_names);
        match find_in_entries(&mut in_new, id) {
            Some(e) => Some(e),
            None => {
                let mut in_cur = self.list_cur(cur_names);
                find_in_entries(&mut in_cur, id)
            },
        }
    }

    /// The rename that moves a message from `new` to `cur` with an
    /// empty flag suffix: source path, then destination path.
    pub fn move_new_to_cur_paths(&self, id: &str) -> (r: (String, String))
        ensures
            r.0@ == entry_path_spec(new_dir_spec(self.root()), id@),
            r.1@ == entry_path_spec(cur_dir_spec(self.root()), cur_name_spec(id@, Seq::empty())),
    {
        let src = join(self.new_dir().as_str(), id);
        let name = cur_name(id, "");
        proof {
            reveal_strlit("");
            assert(("")@ =~= Seq::<char>::empty());
        }
        let dst = join(self.cur_dir().as_str(), name.as_str());
        (src, dst)
    }

    /// The path under `tmp` where one delivery attempt stages its
    /// bytes before publication.
    pub fn staging_path(&self, secs: u64, nanos: u32, pid: u64, host: &str) -> (r: String)
        ensures
            r@ == entry_path_spec(
                tmp_dir_spec(self.root()),
                staging_name_spec(secs as nat, nanos as nat, pid as nat, host@),
            ),
    {
        let name = staging_name(secs, nanos, pid, host);
        join(self.tmp_dir().as_str(), name.as_str())
    }

    /// The path a delivery publishes to by one atomic rename: under
    /// `new` the bare identifier, under `cur` the identifier with the
    /// canonical form of the flag text.
    pub fn store_dest_path(&self, subfolder: Subfolder, id: &str, flag_text: &str) -> (r: String)
        ensures
            subfolder is New ==> r@ == entry_path_spec(new_dir_spec(self.root()), id@),
            subfolder is Cur ==> r@ == entry_path_spec(
                cur_dir_spec(self.root()),
                cur_name_spec(id@, dedup(flag_text@)),
            ),
    {
        match subfolder {
            Subfolder::New => join(self.new_dir().as_str(), id),
            Subfolder::Cur => {
                let canonical = canonical_flags(flag_text);
                let name = cur_name(id, canonical.as_str());
                join(self.cur_dir().as_str(), name.as_str())
            },
        }
    }

    /// Whether two mailbox handles resolve to the identical root.
    pub fn same_root(&self, other: &Maildir) -> (r: bool)
        ensures
            r == (self.root() == other.root()),
    {
        str_equal(self.path.as_str(), other.path.as_str())
    }

    /// Where a copy of message `id` carrying `flag_text` lands in
    /// `other`, keeping the identifier and flags: under `cur` when any
    /// flag text is present, else under `new`.  A copy onto the same
    /// mailbox root is refused with the invalid-argument kind before
    /// anything is touched, since it would collide with or clobber the
    /// source file.
    pub fn copy_to_dest(&self, other: &Maildir, id: &str, flag_text: &str) -> (r: Result<
        String,
        MaildirError,
    >)
        ensures
            self.root() == other.root() ==> (r matches Err(e) && e is InvalidArgument),
            self.root() != other.root() ==> (r matches Ok(p) && p@ == copy_dest_spec(
                other.root(),
                id@,
                flag_text@,
            )),
    {
        if self.same_root(other) {
            return Err(MaildirError::InvalidArgument);
        }
        if flag_text.unicode_len() == 0 {
            Ok(other.store_dest_path(Subfolder::New, id, flag_text))
        } else {
            Ok(other.store_dest_path(Subfolder::Cur, id, flag_text))
        }
    }

    /// The rename performed by set_flags: from the message's current
    /// path to `cur` under exactly the canonical form of `flag_text`.
    /// A message still in `new` moves to `cur` this way, even with an
    /// empty flag set.
    pub fn set_flags_paths(&self, entry: &MailEntry, flag_text: &str) -> (r: (String, String))
        ensures
            r.0@ == entry.path_spec(),
            r.1@ == entry_path_spec(
                cur_dir_spec(self.root()),
                cur_name_spec(entry.id_spec(), dedup(flag_text@)),
            ),
    {
        let src = entry.path().to_owned();
        let canonical = canonical_flags(flag_text);
        let name = cur_name(entry.id(), canonical.as_str());
        let dst = join(self.cur_dir().as_str(), name.as_str());
        (src, dst)
    }

    /// The rename performed by add_flags: the new suffix is the
    /// canonical union of the message's current flags and `flag_text`.
    pub fn add_flags_paths(&self, entry: &MailEntry, flag_text: &str) -> (r: (String, String))
        ensures
            r.0@ == entry.path_spec(),
            r.1@ == entry_path_spec(
                cur_dir_spec(self.root()),
                cur_name_spec(entry.id_spec(), dedup(entry.flags_spec() + flag_text@)),
            ),
    {
        let src = entry.path().to_owned();
        let unioned = union_flags(entry.flags(), flag_text);
        let name = cur_name(entry.id(), unioned.as_str());
        let dst = join(self.cur_dir().as_str(), name.as_str());
        (src, dst)
    }

    /// The rename performed by remove_flags: the new suffix is the
    /// canonical difference, the message's current flags less those of
    /// `flag_text`.
    pub fn remove_flags_paths(&self, entry: &MailEntry, flag_text: &str) -> (r: (String, String))
        ensures
            r.0@ == entry.path_spec(),
            r.1@ == entry_path_spec(
                cur_dir_spec(self.root()),
                cur_name_spec(entry.id_spec(), remove_flags_spec(entry.flags_spec(), flag_text@)),
            ),
    {
        let src = entry.path().to_owned();
        let removed = difference_flags(entry.flags(), flag_text);
        let name = cur_name(entry.id(), removed.as_str());
        let dst = join(self.cur_dir().as_str(), name.as_str());
        (src, dst)
    }
}

impl From<String> for Maildir {
    fn from(p: String) -> (r: Maildir)
        ensures
            r.root() == p@,
    {
        Maildir { path: p }
    }
}

impl vstd::std_specs::convert::FromSpecImpl<String> for Maildir {
    open spec fn obeys_from_spec() -> bool {
        true
    }

    closed spec fn from_spec(p: String) -> Maildir {
        Maildir { path: p }
    }
}

impl<'a> From<&'a str> for Maildir {
    fn from(s: &'a str) -> (r: Maildir)
        ensures
            r.root() == s@,
    {
        Maildir { path: s.to_owned() }
    }
}

impl<'a> vstd::std_specs::convert::FromSpecImpl<&'a str> for Maildir {
    open spec fn obeys_from_spec() -> bool {
        false
    }

    closed spec fn from_spec(s: &'a str) -> Maildir {
        arbitrary()
    }
}

/// A freshly published `cur` filename, scanned back, is exactly one
/// record carrying the stored identifier and exactly the stored flag
/// set, duplicates and order of the flag text ignored.
pub proof fn lemma_store_then_scan(root: Seq<char>, id: Seq<char>, fl: Seq<char>)
    requires
        id.len() > 0,
        id[0] != '.',
        !has_sep(id),
    ensures
        ({
            let name = cur_name_spec(id, dedup(fl));
            let items = scan_spec(Subfolder::Cur, cur_dir_spec(root), seq![name]);
            &&& items == seq![
                ScanItem::Message {
                    id: id,
                    flags: dedup(fl),
                    path: entry_path_spec(cur_dir_spec(root), name),
                },
            ]
            &&& forall|c: char| dedup(fl).contains(c) == fl.contains(c)
        }),
{
    let name = cur_name_spec(id, dedup(fl));
    let dir = cur_dir_spec(root);
    lemma_cur_name_splits(id, dedup(fl));
    assert(name[0] == id[0]) by {
        assert(name[0] == ((id + crate::names::sep_seq()) + dedup(fl))[0]);
    }
    assert(!crate::entries::is_hidden(name));
    let names: Seq<Seq<char>> = seq![name];
    assert(names.drop_first() =~= Seq::<Seq<char>>::empty());
    assert(scan_spec(Subfolder::Cur, dir, Seq::empty()) == Seq::<ScanItem>::empty());
    crate::entries::lemma_scan_step(Subfolder::Cur, dir, names);
    assert(scan_spec(Subfolder::Cur, dir, names) =~= seq![
        crate::entries::classify_spec(Subfolder::Cur, dir, name),
    ]);
    assert forall|c: char| dedup(fl).contains(c) == fl.contains(c) by {
        lemma_dedup_contains(fl, c);
    }
}

/// Storing a message into `cur` and then looking its identifier up
/// finds it: one record, under the stored identifier, carrying exactly
/// the stored flag set, duplicates and order of the flag text ignored.
pub proof fn lemma_store_then_find(root: Seq<char>, id: Seq<char>, fl: Seq<char>)
    requires
        id.len() > 0,
        id[0] != '.',
        !has_sep(id),
    ensures
        ({
            let name = cur_name_spec(id, dedup(fl));
            let items = scan_spec(Subfolder::Cur, cur_dir_spec(root), seq![name]);
            &&& find_spec(Seq::empty(), items, id) == Some(
                ScanItem::Message {
                    id: id,
                    flags: dedup(fl),
                    path: entry_path_spec(cur_dir_spec(root), name),
                },
            )
            &&& forall|c: char| dedup(fl).contains(c) == fl.contains(c)
        }),
{
    lemma_store_then_scan(root, id, fl);
    let name = cur_name_spec(id, dedup(fl));
    let item = ScanItem::Message {
        id: id,
        flags: dedup(fl),
        path: entry_path_spec(cur_dir_spec(root), name),
    };
    let items = scan_spec(Subfolder::Cur, cur_dir_spec(root), seq![name]);
    assert(items =~= seq![item] + Seq::<ScanItem>::empty());
    lemma_find_step(item, Seq::empty(), id);
}

/// After move_new_to_cur the destination filename scans back under
/// `cur` as the same identifier with an empty flag set.
pub proof fn lemma_moved_name_scans_back(root: Seq<char>, id: Seq<char>)
    requires
        id.len() > 0,
        id[0] != '.',
        !has_sep(id),
    ensures
        scan_spec(
            Subfolder::Cur,
            cur_dir_spec(root),
            seq![cur_name_spec(id, Seq::empty())],
        ) == seq![
            ScanItem::Message {
                id: id,
                flags: Seq::<char>::empty(),
                path: entry_path_spec(cur_dir_spec(root), cur_name_spec(id, Seq::empty())),
            },
        ],
{
    assert(dedup(Seq::<char>::empty()) =~= Seq::<char>::empty());
    lemma_store_then_scan(root, id, Seq::empty());
}

/// Copying to another mailbox and moving back keeps the identifier and
/// the flag set: canonicalization is idempotent, so the message
/// reappears under the very filename a canonical original had.
pub proof fn lemma_copy_move_round_trip(id: Seq<char>, fl: Seq<char>)
    ensures
        cur_name_spec(id, dedup(dedup(fl))) == cur_name_spec(id, dedup(fl)),
        forall|c: char| dedup(dedup(fl)).contains(c) == fl.contains(c),
{
    lemma_dedup_idempotent(fl);
    assert forall|c: char| dedup(dedup(fl)).contains(c) == fl.contains(c) by {
        lemma_dedup_contains(fl, c);
    }
}

} // verus!
