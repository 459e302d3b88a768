use maildir::entries::MailEntries;
use maildir::entries::Subfolder;

fn new_entries(names: Vec<&str>) -> MailEntries {
    MailEntries::new(
        Subfolder::New,
        String::from("md/new"),
        names.into_iter().map(String::from).collect(),
    )
}

fn cur_entries(names: Vec<&str>) -> MailEntries {
    MailEntries::new(
        Subfolder::Cur,
        String::from("md/cur"),
        names.into_iter().map(String::from).collect(),
    )
}

#[test]
fn new_names_become_records_with_empty_flags() {
    let mut it = new_entries(vec!["msg1", "msg2"]);
    let first = it.next_entry().unwrap().unwrap();
    assert_eq!(first.id(), "msg1");
    assert_eq!(first.flags(), "");
    assert_eq!(first.path(), "md/new/msg1");
    assert!(!first.has_data());
    let second = it.next_entry().unwrap().unwrap();
    assert_eq!(second.id(), "msg2");
    assert!(it.next_entry().is_none());
}

#[test]
fn cur_names_are_split_on_the_separator() {
    let mut it = cur_entries(vec!["msg1:2,FRS"]);
    let entry = it.next_entry().unwrap().unwrap();
    assert_eq!(entry.id(), "msg1");
    assert_eq!(entry.flags(), "FRS");
    assert_eq!(entry.path(), "md/cur/msg1:2,FRS");
    assert!(it.next_entry().is_none());
}

#[test]
fn hidden_names_are_skipped_silently() {
    let mut it = cur_entries(vec![".Subdir1", "msg1:2,S", ".swp", "."]);
    let entry = it.next_entry().unwrap().unwrap();
    assert_eq!(entry.id(), "msg1");
    assert!(it.next_entry().is_none());

    let mut it = new_entries(vec![".hidden", "..also"]);
    assert!(it.next_entry().is_none());
}

#[test]
fn missing_separator_yields_exactly_one_error() {
    let mut it = cur_entries(vec!["notmaildir", "msg1:2,"]);
    let err = it.next_entry().unwrap().unwrap_err();
    assert_eq!(err.name, "notmaildir");
    let entry = it.next_entry().unwrap().unwrap();
    assert_eq!(entry.id(), "msg1");
    assert_eq!(entry.flags(), "");
    assert!(it.next_entry().is_none());
}

#[test]
fn count_remaining_counts_errors_but_not_hidden() {
    let mut it = cur_entries(vec![".h", "a:2,S", "bad", "b:2,"]);
    assert_eq!(it.count_remaining(), 3);
    assert_eq!(it.count_remaining(), 0);

    let mut it = new_entries(vec![]);
    assert_eq!(it.count_remaining(), 0);
}

#[test]
fn one_new_and_one_seen_cur_message() {
    let mail = b"Subject: test\r\n\r\nbody";

    let mut new_it = new_entries(vec!["1463941010.5f7fa6dd4922c183dc457d033deee9d7"]);
    assert_eq!(new_it.count_remaining(), 1);
    let mut new_it = new_entries(vec!["1463941010.5f7fa6dd4922c183dc457d033deee9d7"]);
    let mut new_entry = new_it.next_entry().unwrap().unwrap();
    assert!(!new_entry.is_seen());
    new_entry.cache_data(mail.to_vec());
    let headers = new_entry.headers().unwrap();
    assert_eq!(
        mailparse::MailHeaderMap::get_first_value(headers.as_slice(), "Subject"),
        Some(String::from("test"))
    );

    let mut cur_it = cur_entries(vec!["1463868505.38518452d49213cb409aa1db32f53184:2,S"]);
    assert_eq!(cur_it.count_remaining(), 1);
    let mut cur_it = cur_entries(vec!["1463868505.38518452d49213cb409aa1db32f53184:2,S"]);
    let mut cur_entry = cur_it.next_entry().unwrap().unwrap();
    assert!(cur_entry.is_seen());
    cur_entry.cache_data(mail.to_vec());
    let headers = cur_entry.headers().unwrap();
    assert_eq!(
        mailparse::MailHeaderMap::get_first_value(headers.as_slice(), "Subject"),
        Some(String::from("test"))
    );
}
