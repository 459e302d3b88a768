//! A single message record.
//!
//! A record pairs the identifier and flag text taken from a message's
//! filename with the file's path and, once a caller has read the file, a
//! cached copy of its raw bytes.  The record is a snapshot: content is
//! cached once and never re-read.  Parsing the bytes is delegated to the
//! mailparse crate; what those calls return is a function of the bytes
//! alone, named here so contracts can speak about it exactly.

use vstd::prelude::*;

use mailparse::MailHeaderMap;

use crate::errors::MailEntryError;
use crate::text::str_contains_char;

verus! {

#[verifier::external_type_specification]
#[verifier::external_body]
pub struct ExParsedMail<'a>(mailparse::ParsedMail<'a>);

#[verifier::external_type_specification]
#[verifier::external_body]
pub struct ExMailHeader<'a>(mailparse::MailHeader<'a>);

/// Whether the mail parser accepts `d` as a full structured message.
pub uninterp spec fn mail_parse_ok(d: Seq<u8>) -> bool;

/// Whether the mail parser accepts the header block of `d`.
pub uninterp spec fn headers_parse_ok(d: Seq<u8>) -> bool;

/// The value of the first `Received` header of `d`, for bytes whose
/// header block parses.
pub uninterp spec fn received_header_of(d: Seq<u8>) -> Option<Seq<char>>;

/// The timestamp the date parser reads from `s`, if any.
pub uninterp spec fn date_of(s: Seq<char>) -> Option<i64>;

/// Relies on mailparse::parse_mail: whether raw message bytes parse as a
/// structured message is a function of the bytes alone.
#[verifier::external_body]
fn parse_mail_raw(d: &[u8]) -> (r: Result<mailparse::ParsedMail<'_>, mailparse::MailParseError>)
    ensures
        r is Ok == mail_parse_ok(d@),
{
    mailparse::parse_mail(d)
}

/// Relies on mailparse::parse_headers: whether the header block of raw
/// message bytes parses is a function of the bytes alone.
#[verifier::external_body]
fn parse_headers_raw(d: &[u8]) -> (r: Result<
    Vec<mailparse::MailHeader<'_>>,
    mailparse::MailParseError,
>)
    ensures
        r is Ok == headers_parse_ok(d@),
{
    mailparse::parse_headers(d).map(|p| p.0)
}

/// Relies on mailparse::parse_headers followed by
/// MailHeaderMap::get_first_value on its result: the value of the first
/// `Received` header is a function of the bytes alone.
#[verifier::external_body]
fn received_header_raw(d: &[u8]) -> (r: Result<Option<String>, mailparse::MailParseError>)
    ensures
        r is Ok == headers_parse_ok(d@),
        r matches Ok(v) ==> match v {
            Some(s) => received_header_of(d@) == Some(s@),
            None => received_header_of(d@) is None,
        },
{
    match mailparse::parse_headers(d) {
        Ok((hs, _)) => Ok(hs.get_first_value("Received")),
        Err(e) => Err(e),
    }
}

/// Relies on mailparse::dateparse: the timestamp read from a date string
/// is a function of the text alone.
#[verifier::external_body]
fn dateparse_raw(s: &str) -> (r: Result<i64, mailparse::MailParseError>)
    ensures
        r matches Ok(t) ==> date_of(s@) == Some(t),
        r is Err ==> date_of(s@) is None,
{
    mailparse::dateparse(s)
}

/// The text after the last ';' of `s`; all of `s` when there is none.
pub open spec fn after_last_semi(s: Seq<char>) -> Seq<char>
    decreases s.len(),
{
    if s.len() == 0 {
        s
    } else if s.last() == ';' {
        Seq::empty()
    } else {
        after_last_semi(s.drop_last()).push(s.last())
    }
}

proof fn lemma_after_last_semi_split(s: Seq<char>, k: int)
    requires
        0 <= k < s.len(),
        s[k] == ';',
        forall|j: int| k < j < s.len() ==> s[j] != ';',
    ensures
        after_last_semi(s) == s.subrange(k + 1, s.len() as int),
    decreases s.len(),
{
    if k == s.len() - 1 {
        assert(after_last_semi(s) =~= s.subrange(k + 1, s.len() as int));
    } else {
        assert(s.last() != ';');
        assert(s.drop_last()[k] == ';');
        lemma_after_last_semi_split(s.drop_last(), k);
        assert(after_last_semi(s) =~= s.subrange(k + 1, s.len() as int));
    }
}

proof fn lemma_after_last_semi_whole(s: Seq<char>)
    requires
        forall|j: int| 0 <= j < s.len() ==> s[j] != ';',
    ensures
        after_last_semi(s) == s,
    decreases s.len(),
{
    if s.len() == 0 {
    } else {
        lemma_after_last_semi_whole(s.drop_last());
        assert(after_last_semi(s) =~= s);
    }
}

/// The text after the last ';' of `s`; a copy of `s` when there is none.
pub fn last_segment(s: &str) -> (r: String)
    ensures
        r@ == after_last_semi(s@),
{
    let len = s.unicode_len();
    let mut i: usize = len;
    while i > 0
        invariant
            len == s@.len(),
            i <= len,
            forall|j: int| i <= j < len ==> s@[j] != ';',
        decreases i,
    {
        if s.get_char(i - 1) == ';' {
            let r = s.substring_char(i, len).to_owned();
            proof {
                lemma_after_last_semi_split(s@, i - 1);
            }
            return r;
        }
        i -= 1;
    }
    proof {
        lemma_after_last_semi_whole(s@);
    }
    s.to_owned()
}

/// One message inside the maildir.  Creating the record does not load
/// the message file; a caller reads the file once and caches the bytes
/// here before anything that parses them.
#[derive(Debug)]
pub struct MailEntry {
    id: String,
    flags: String,
    path: String,
    data: Option<Vec<u8>>,
}

impl MailEntry {
    /// The identifier encoded in the message's filename.
    pub closed spec fn id_spec(&self) -> Seq<char> {
        self.id@
    }

    /// The raw flag text encoded in the message's filename.
    pub closed spec fn flags_spec(&self) -> Seq<char> {
        self.flags@
    }

    /// The path of the message file.
    pub closed spec fn path_spec(&self) -> Seq<char> {
        self.path@
    }

    /// The cached raw bytes, once loaded.
    pub closed spec fn data_spec(&self) -> Option<Seq<u8>> {
        match self.data {
            Some(d) => Some(d@),
            None => None,
        }
    }

    /// A record for a message file, before its content is loaded.
    pub fn new(id: String, flags: String, path: String) -> (r: MailEntry)
        ensures
            r.id_spec() == id@,
            r.flags_spec() == flags@,
            r.path_spec() == path@,
            r.data_spec() is None,
    {
        MailEntry { id, flags, path, data: None }
    }

    /// Whether the message's raw bytes have been loaded and cached.
    pub fn has_data(&self) -> (r: bool)
        ensures
            r == (self.data_spec() is Some),
    {
        self.data.is_some()
    }

    /// Cache the message's raw bytes, read from its file by the caller.
    /// The record is a snapshot: the cache is filled once.
    pub fn cache_data(&mut self, d: Vec<u8>)
        requires
            old(self).data_spec() is None,
        ensures
            final(self).data_spec() == Some(d@),
            final(self).id_spec() == old(self).id_spec(),
            final(self).flags_spec() == old(self).flags_spec(),
            final(self).path_spec() == old(self).path_spec(),
    {
        self.data = Some(d);
    }

    /// The message identifier.
    pub fn id(&self) -> (r: &str)
        ensures
            r@ == self.id_spec(),
    {
        self.id.as_str()
    }

    /// The raw flag text.
    pub fn flags(&self) -> (r: &str)
        ensures
            r@ == self.flags_spec(),
    {
        self.flags.as_str()
    }

    /// The path of the message file.
    pub fn path(&self) -> (r: &str)
        ensures
            r@ == self.path_spec(),
    {
        self.path.as_str()
    }

    /// Whether the draft flag 'D' is set.
    pub fn is_draft(&self) -> (r: bool)
        ensures
            r == self.flags_spec().contains('D'),
    {
        str_contains_char(self.flags.as_str(), 'D')
    }

    /// Whether the flagged flag 'F' is set.
    pub fn is_flagged(&self) -> (r: bool)
        ensures
            r == self.flags_spec().contains('F'),
    {
        str_contains_char(self.flags.as_str(), 'F')
    }

    /// Whether the passed flag 'P' is set.
    pub fn is_passed(&self) -> (r: bool)
        ensures
            r == self.flags_spec().contains('P'),
    {
        str_contains_char(self.flags.as_str(), 'P')
    }

    /// Whether the replied flag 'R' is set.
    pub fn is_replied(&self) -> (r: bool)
        ensures
            r == self.flags_spec().contains('R'),
    {
        str_contains_char(self.flags.as_str(), 'R')
    }

    /// Whether the seen flag 'S' is set.
    pub fn is_seen(&self) -> (r: bool)
        ensures
            r == self.flags_spec().contains('S'),
    {
        str_contains_char(self.flags.as_str(), 'S')
    }

    /// Whether the trashed flag 'T' is set.
    pub fn is_trashed(&self) -> (r: bool)
        ensures
            r == self.flags_spec().contains('T'),
    {
        str_contains_char(self.flags.as_str(), 'T')
    }

    /// Parse the cached bytes as a full structured message.  Succeeds
    /// exactly when the mail parser accepts the bytes; a failure is the
    /// parser's, wrapped.
    pub fn parsed<'a>(&'a self) -> (r: Result<mailparse::ParsedMail<'a>, MailEntryError>)
        requires
            self.data_spec() is Some,
        ensures
            r is Ok == mail_parse_ok(self.data_spec()->Some_0),
            r matches Err(e) ==> e is ParseError,
    {
        match &self.data {
            Some(d) => match parse_mail_raw(d.as_slice()) {
                Ok(p) => Ok(p),
                Err(e) => Err(MailEntryError::ParseError(e)),
            },
            None => unreached(),
        }
    }

    /// Parse only the header block of the cached bytes.  Succeeds
    /// exactly when the mail parser accepts the header block; a failure
    /// is the parser's, wrapped.
    pub fn headers<'a>(&'a self) -> (r: Result<Vec<mailparse::MailHeader<'a>>, MailEntryError>)
        requires
            self.data_spec() is Some,
        ensures
            r is Ok == headers_parse_ok(self.data_spec()->Some_0),
            r matches Err(e) ==> e is ParseError,
    {
        match &self.data {
            Some(d) => match parse_headers_raw(d.as_slice()) {
                Ok(hs) => Ok(hs),
                Err(e) => Err(MailEntryError::ParseError(e)),
            },
            None => unreached(),
        }
    }

    /// The delivery timestamp: the value of the first `Received` header,
    /// split on ';', last segment, read as a date.  Fails with a parse
    /// error when the header block is rejected or the segment is no
    /// date, and with a date error when the header is absent.
    pub fn received(&self) -> (r: Result<i64, MailEntryError>)
        requires
            self.data_spec() is Some,
        ensures
            ({
                let d = self.data_spec()->Some_0;
                &&& !headers_parse_ok(d) ==> (r matches Err(e) && e is ParseError)
                &&& headers_parse_ok(d) ==> match received_header_of(d) {
                    None => r matches Err(e) && e is DateError,
                    Some(h) => match date_of(after_last_semi(h)) {
                        Some(t) => r == Ok::<i64, MailEntryError>(t),
                        None => r matches Err(e) && e is ParseError,
                    },
                }
            }),
    {
        match &self.data {
            Some(d) => match received_header_raw(d.as_slice()) {
                Ok(Some(v)) => {
                    let seg = last_segment(v.as_str());
                    match dateparse_raw(seg.as_str()) {
                        Ok(t) => Ok(t),
                        Err(e) => Err(MailEntryError::ParseError(e)),
                    }
                },
                Ok(None) => Err(MailEntryError::DateError("No Received header found")),
                Err(e) => Err(MailEntryError::ParseError(e)),
            },
            None => unreached(),
        }
    }
}

} // verus!
