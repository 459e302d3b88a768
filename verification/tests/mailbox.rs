use maildir::entries::Subfolder;
use maildir::entry::MailEntry;
use maildir::errors::MaildirError;
use maildir::maildir::Maildir;
use maildir::maildir::require_found;

fn names(v: Vec<&str>) -> Vec<String> {
    v.into_iter().map(String::from).collect()
}

#[test]
fn subdirectory_paths() {
    let md = Maildir::from(String::from("mb"));
    assert_eq!(md.path(), "mb");
    assert_eq!(md.new_dir(), "mb/new");
    assert_eq!(md.cur_dir(), "mb/cur");
    assert_eq!(md.tmp_dir(), "mb/tmp");
    assert_eq!(md.subdir_paths(), vec!["mb/cur", "mb/new", "mb/tmp"]);
}

#[test]
fn find_searches_new_then_cur() {
    let md = Maildir::from(String::from("mb"));
    let found = md
        .find(names(vec!["id1"]), names(vec!["id2:2,S"]), "id2")
        .unwrap();
    assert_eq!(found.id(), "id2");
    assert_eq!(found.flags(), "S");
    assert_eq!(found.path(), "mb/cur/id2:2,S");

    let found = md
        .find(names(vec!["id1"]), names(vec!["id2:2,S"]), "id1")
        .unwrap();
    assert_eq!(found.path(), "mb/new/id1");

    assert!(md
        .find(names(vec!["id1"]), names(vec!["id2:2,S"]), "id3")
        .is_none());
}

#[test]
fn find_passes_over_hidden_and_malformed_names() {
    let md = Maildir::from(String::from("mb"));
    let found = md
        .find(names(vec![]), names(vec![".hidden", "junk", "id1:2,"]), "id1")
        .unwrap();
    assert_eq!(found.id(), "id1");
    assert!(md
        .find(names(vec![]), names(vec!["junk"]), "junk")
        .is_none());
}

#[test]
fn move_new_to_cur_renames_with_empty_suffix() {
    let md = Maildir::from(String::from("mb"));
    let (src, dst) = md.move_new_to_cur_paths("id1");
    assert_eq!(src, "mb/new/id1");
    assert_eq!(dst, "mb/cur/id1:2,");
}

#[test]
fn staging_and_publication_paths() {
    let md = Maildir::from(String::from("mb"));
    assert_eq!(
        md.staging_path(1463868505, 42, 1000, "localhost"),
        "mb/tmp/1463868505.M42P1000.localhost"
    );
    assert_eq!(
        md.store_dest_path(Subfolder::New, "id1", ""),
        "mb/new/id1"
    );
    assert_eq!(
        md.store_dest_path(Subfolder::Cur, "id1", "SRS"),
        "mb/cur/id1:2,SR"
    );
}

#[test]
fn stored_message_is_found_with_its_flag_set() {
    let md = Maildir::from(String::from("mb"));
    let dest = md.store_dest_path(Subfolder::Cur, "id1", "SSR");
    assert_eq!(dest, "mb/cur/id1:2,SR");
    let found = md.find(names(vec![]), names(vec!["id1:2,SR"]), "id1").unwrap();
    assert!(found.is_seen());
    assert!(found.is_replied());
    assert!(!found.is_flagged());
    assert_eq!(found.path(), "mb/cur/id1:2,SR");
}

#[test]
fn self_copy_is_refused_as_invalid() {
    let a = Maildir::from(String::from("mb"));
    let also_a = Maildir::from(String::from("mb"));
    match a.copy_to_dest(&also_a, "id1", "S") {
        Err(MaildirError::InvalidArgument) => {}
        _ => panic!("a self-copy must be refused with the invalid-argument kind"),
    }
}

#[test]
fn copy_keeps_identifier_and_flags() {
    let a = Maildir::from(String::from("mba"));
    let b = Maildir::from(String::from("mbb"));
    assert_eq!(a.copy_to_dest(&b, "id1", "FR").unwrap(), "mbb/cur/id1:2,FR");
    assert_eq!(a.copy_to_dest(&b, "id1", "").unwrap(), "mbb/new/id1");
}

#[test]
fn copy_then_move_back_restores_the_original_name() {
    let a = Maildir::from(String::from("mba"));
    let b = Maildir::from(String::from("mbb"));
    let original = "mba/cur/id1:2,FR";
    let copied = a.copy_to_dest(&b, "id1", "FR").unwrap();
    assert_eq!(copied, "mbb/cur/id1:2,FR");
    let back = b.copy_to_dest(&a, "id1", "FR").unwrap();
    assert_eq!(back, original);
}

#[test]
fn flag_mutation_renames() {
    let md = Maildir::from(String::from("mb"));
    let entry = MailEntry::new(
        String::from("id1"),
        String::from("SR"),
        String::from("mb/cur/id1:2,SR"),
    );

    let (src, dst) = md.set_flags_paths(&entry, "SF");
    assert_eq!(src, "mb/cur/id1:2,SR");
    assert_eq!(dst, "mb/cur/id1:2,SF");

    let (_, dst) = md.add_flags_paths(&entry, "RF");
    assert_eq!(dst, "mb/cur/id1:2,SRF");

    let (_, dst) = md.remove_flags_paths(&entry, "FS");
    assert_eq!(dst, "mb/cur/id1:2,R");
}

#[test]
fn setting_no_flags_still_moves_into_cur() {
    let md = Maildir::from(String::from("mb"));
    let entry = MailEntry::new(String::from("id1"), String::from(""), String::from("mb/new/id1"));
    let (src, dst) = md.set_flags_paths(&entry, "");
    assert_eq!(src, "mb/new/id1");
    assert_eq!(dst, "mb/cur/id1:2,");
}

#[test]
fn adding_present_flags_changes_nothing() {
    let md = Maildir::from(String::from("mb"));
    let entry = MailEntry::new(
        String::from("id1"),
        String::from("FR"),
        String::from("mb/cur/id1:2,FR"),
    );
    let (_, dst) = md.add_flags_paths(&entry, "R");
    assert_eq!(dst, "mb/cur/id1:2,FR");
    let (_, dst) = md.remove_flags_paths(&entry, "XZ");
    assert_eq!(dst, "mb/cur/id1:2,FR");
}

#[test]
fn a_missing_message_is_the_not_found_kind() {
    match require_found(None) {
        Err(MaildirError::NotFound) => {}
        _ => panic!("an empty lookup must be the not-found kind"),
    }
    let entry = MailEntry::new(String::from("id1"), String::from(""), String::from("p"));
    assert_eq!(require_found(Some(entry)).unwrap().id(), "id1");
}

#[test]
fn same_root_compares_paths() {
    let a = Maildir::from("mb");
    let b = Maildir::from(String::from("mb"));
    let c = Maildir::from("other");
    assert!(a.same_root(&b));
    assert!(!a.same_root(&c));
}
