//! A maildir-format mailbox library.
//!
//! A maildir is a directory with three subdirectories, `tmp`, `new` and
//! `cur`, holding one file per mail message.  A message's filename encodes
//! a unique identifier and, under `cur`, a set of single-character flags.
//! This crate verifies the naming protocol itself: identifier minting,
//! filename encoding and parsing, flag-set algebra, and the per-entry
//! decisions of enumeration.  The surrounding filesystem work (directory
//! scans, atomic renames, staging writes) is performed by a thin shell that
//! feeds plain values to, and takes plain values from, the functions here.

pub mod digits;
pub mod entries;
pub mod entry;
pub mod errors;
pub mod flags;
pub mod ident;
pub mod maildir;
pub mod names;
pub mod text;
