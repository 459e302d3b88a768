use maildir::entry::MailEntry;
use maildir::entry::last_segment;
use maildir::errors::MailEntryError;

const TEST_MAIL_BODY: &[u8] = b"Return-Path: <of82ecuq@cip.cs.fau.de>\n\
X-Original-To: of82ecuq@cip.cs.fau.de\n\
Delivered-To: of82ecuq@cip.cs.fau.de\n\
Received: from faui0fl.informatik.uni-erlangen.de (unknown [IPv6:2001:638:a000:4160:131:188:60:117])\n        by faui03.informatik.uni-erlangen.de (Postfix) with ESMTP id 466C1240A3D\n        for <of82ecuq@cip.cs.fau.de>; Fri, 12 May 2017 10:09:45 +0000 (UTC)\n\
To: of82ecuq@cip.cs.fau.de\n\
MIME-Version: 1.0\n\
Content-Type: text/plain; charset=\"UTF-8\"\n\
Content-Transfer-Encoding: 8bit\n\
Date: Fri, 12 May 2017 12:09:45 +0200 (CEST)\n\
From: of82ecuq@cip.cs.fau.de (Johannes Schilling)\n\
Subject: maildir delivery test mail\n\
\n\
Today is Boomtime, the 59th day of Discord in the YOLD 3183";

fn entry_with(data: &[u8]) -> MailEntry {
    let mut e = MailEntry::new(
        String::from("id1"),
        String::from(""),
        String::from("md/new/id1"),
    );
    assert!(!e.has_data());
    e.cache_data(data.to_vec());
    assert!(e.has_data());
    e
}

#[test]
fn getters_reflect_the_filename_parts() {
    let e = MailEntry::new(
        String::from("msg"),
        String::from("FRS"),
        String::from("md/cur/msg:2,FRS"),
    );
    assert_eq!(e.id(), "msg");
    assert_eq!(e.flags(), "FRS");
    assert_eq!(e.path(), "md/cur/msg:2,FRS");
}

#[test]
fn flag_predicates_test_membership() {
    let e = MailEntry::new(String::from("m"), String::from("FRS"), String::from("p"));
    assert!(!e.is_draft());
    assert!(e.is_flagged());
    assert!(!e.is_passed());
    assert!(e.is_replied());
    assert!(e.is_seen());
    assert!(!e.is_trashed());

    let all = MailEntry::new(String::from("m"), String::from("DFPRST"), String::from("p"));
    assert!(all.is_draft());
    assert!(all.is_flagged());
    assert!(all.is_passed());
    assert!(all.is_replied());
    assert!(all.is_seen());
    assert!(all.is_trashed());
}

#[test]
fn unknown_flag_characters_are_kept_but_never_match() {
    let e = MailEntry::new(String::from("m"), String::from("XS"), String::from("p"));
    assert_eq!(e.flags(), "XS");
    assert!(e.is_seen());
    assert!(!e.is_draft());
}

#[test]
fn parsed_body_round_trips() {
    let e = entry_with(TEST_MAIL_BODY);
    let parsed = e.parsed().unwrap();
    assert_eq!(
        parsed.get_body_raw().unwrap(),
        b"Today is Boomtime, the 59th day of Discord in the YOLD 3183".to_vec()
    );
}

#[test]
fn headers_expose_the_subject() {
    let e = entry_with(TEST_MAIL_BODY);
    let headers = e.headers().unwrap();
    assert_eq!(
        mailparse::MailHeaderMap::get_first_value(headers.as_slice(), "Subject"),
        Some(String::from("maildir delivery test mail"))
    );
}

#[test]
fn received_reads_the_date_after_the_last_semicolon() {
    let e = entry_with(TEST_MAIL_BODY);
    let expected = mailparse::dateparse(" Fri, 12 May 2017 10:09:45 +0000 (UTC)").unwrap();
    assert_eq!(e.received().unwrap(), expected);
}

#[test]
fn received_without_the_header_is_a_date_error() {
    let e = entry_with(b"Subject: test\r\n\r\nbody");
    match e.received() {
        Err(MailEntryError::DateError(_)) => {}
        other => panic!("expected a date error, got {:?}", other.is_ok()),
    }
}

#[test]
fn received_with_an_unreadable_date_is_a_parse_error() {
    let e = entry_with(b"Received: by example; 99 May 2017 10:09:45 +0000\r\n\r\nbody");
    match e.received() {
        Err(MailEntryError::ParseError(_)) => {}
        other => panic!("expected a parse error, got {:?}", other.is_ok()),
    }
}

#[test]
fn last_segment_splits_on_the_final_semicolon() {
    assert_eq!(last_segment("a;b;c"), "c");
    assert_eq!(last_segment("no semicolon"), "no semicolon");
    assert_eq!(last_segment("trailing;"), "");
    assert_eq!(last_segment(""), "");
}
