//! Error types.
//!
//! Lower-level failures are wrapped into one tagged union per layer, with
//! one variant per source, so a caller can tell the kinds apart: I/O
//! failures, parse failures from the mail-parsing collaborator, a missing
//! `Received` date, a missing message, a self-copy, and a host-name
//! lookup failure during delivery.

use vstd::prelude::*;

verus! {

#[verifier::external_type_specification]
#[verifier::external_body]
pub struct ExIoError(std::io::Error);

#[verifier::external_type_specification]
#[verifier::external_body]
pub struct ExMailParseError(mailparse::MailParseError);

#[verifier::external_type_specification]
#[verifier::external_body]
pub struct ExErrno(nix::errno::Errno);

#[verifier::external_type_specification]
#[verifier::external_body]
pub struct ExSystemTimeError(std::time::SystemTimeError);

/// An error from reading or parsing a single message.
#[derive(Debug)]
pub enum MailEntryError {
    /// The message file could not be read.
    IOError(std::io::Error),
    /// The mail-parsing collaborator rejected the raw bytes.
    ParseError(mailparse::MailParseError),
    /// The message carries no usable `Received` date.
    DateError(&'static str),
}

/// An error from a mailbox-level operation.
#[derive(Debug)]
pub enum MaildirError {
    /// A filesystem operation failed.
    Io(std::io::Error),
    /// A system call made through the nix crate failed.
    Nix(nix::errno::Errno),
    /// The wall clock could not be read as a time since the epoch.
    Time(std::time::SystemTimeError),
    /// The local host name could not be resolved to a plain string.
    Hostname,
    /// The named message is not present in the mailbox.
    NotFound,
    /// Source and destination of a copy or move are the same mailbox.
    InvalidArgument,
}

impl From<std::io::Error> for MailEntryError {
    fn from(e: std::io::Error) -> (r: MailEntryError) {
        MailEntryError::IOError(e)
    }
}

impl vstd::std_specs::convert::FromSpecImpl<std::io::Error> for MailEntryError {
    open spec fn obeys_from_spec() -> bool {
        true
    }

    open spec fn from_spec(e: std::io::Error) -> MailEntryError {
        MailEntryError::IOError(e)
    }
}

impl From<mailparse::MailParseError> for MailEntryError {
    fn from(e: mailparse::MailParseError) -> (r: MailEntryError) {
        MailEntryError::ParseError(e)
    }
}

impl vstd::std_specs::convert::FromSpecImpl<mailparse::MailParseError> for MailEntryError {
    open spec fn obeys_from_spec() -> bool {
        true
    }

    open spec fn from_spec(e: mailparse::MailParseError) -> MailEntryError {
        MailEntryError::ParseError(e)
    }
}

impl From<&'static str> for MailEntryError {
    fn from(e: &'static str) -> (r: MailEntryError) {
        MailEntryError::DateError(e)
    }
}

impl vstd::std_specs::convert::FromSpecImpl<&'static str> for MailEntryError {
    open spec fn obeys_from_spec() -> bool {
        true
    }

    open spec fn from_spec(e: &'static str) -> MailEntryError {
        MailEntryError::DateError(e)
    }
}

impl From<std::io::Error> for MaildirError {
    fn from(e: std::io::Error) -> (r: MaildirError) {
        MaildirError::Io(e)
    }
}

impl vstd::std_specs::convert::FromSpecImpl<std::io::Error> for MaildirError {
    open spec fn obeys_from_spec() -> bool {
        true
    }

    open spec fn from_spec(e: std::io::Error) -> MaildirError {
        MaildirError::Io(e)
    }
}

impl From<nix::errno::Errno> for MaildirError {
    fn from(e: nix::errno::Errno) -> (r: MaildirError) {
        MaildirError::Nix(e)
    }
}

impl vstd::std_specs::convert::FromSpecImpl<nix::errno::Errno> for MaildirError {
    open spec fn obeys_from_spec() -> bool {
        true
    }

    open spec fn from_spec(e: nix::errno::Errno) -> MaildirError {
        MaildirError::Nix(e)
    }
}

impl From<std::time::SystemTimeError> for MaildirError {
    fn from(e: std::time::SystemTimeError) -> (r: MaildirError) {
        MaildirError::Time(e)
    }
}

impl vstd::std_specs::convert::FromSpecImpl<std::time::SystemTimeError> for MaildirError {
    open spec fn obeys_from_spec() -> bool {
        true
    }

    open spec fn from_spec(e: std::time::SystemTimeError) -> MaildirError {
        MaildirError::Time(e)
    }
}

} // verus!
