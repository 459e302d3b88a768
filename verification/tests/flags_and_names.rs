use maildir::flags::canonical_flags;
use maildir::flags::difference_flags;
use maildir::flags::union_flags;
use maildir::names::cur_name;
use maildir::names::find_sep;
use maildir::names::split_cur_name;

#[test]
fn canonical_keeps_first_seen_order() {
    assert_eq!(canonical_flags("SRS"), "SR");
    assert_eq!(canonical_flags("FRS"), "FRS");
    assert_eq!(canonical_flags(""), "");
    assert_eq!(canonical_flags("RRRR"), "R");
}

#[test]
fn union_is_set_union_in_first_seen_order() {
    assert_eq!(union_flags("R", "RF"), "RF");
    assert_eq!(union_flags("SR", "FS"), "SRF");
    assert_eq!(union_flags("", "DT"), "DT");
}

#[test]
fn union_with_present_flags_is_a_no_op() {
    assert_eq!(union_flags("FR", "R"), "FR");
    assert_eq!(union_flags("FR", "RF"), "FR");
    assert_eq!(union_flags("FR", ""), "FR");
}

#[test]
fn difference_removes_named_flags() {
    assert_eq!(difference_flags("SR", "FS"), "R");
    assert_eq!(difference_flags("SRS", "S"), "R");
    assert_eq!(difference_flags("DFPRST", "DT"), "FPRS");
}

#[test]
fn difference_of_absent_flags_is_a_no_op() {
    assert_eq!(difference_flags("R", "X"), "R");
    assert_eq!(difference_flags("FR", ""), "FR");
    assert_eq!(difference_flags("", "S"), "");
}

#[test]
fn cur_name_appends_separator_and_flags() {
    assert_eq!(cur_name("abc", "FR"), "abc:2,FR");
    assert_eq!(cur_name("abc", ""), "abc:2,");
}

#[test]
fn split_takes_first_separator() {
    assert_eq!(
        split_cur_name("abc:2,SR"),
        Some((String::from("abc"), String::from("SR")))
    );
    assert_eq!(
        split_cur_name("abc:2,"),
        Some((String::from("abc"), String::from("")))
    );
    assert_eq!(
        split_cur_name("a:2,b:2,c"),
        Some((String::from("a"), String::from("b:2,c")))
    );
    assert_eq!(split_cur_name("abc"), None);
    assert_eq!(split_cur_name(""), None);
}

#[test]
fn split_reverses_cur_name() {
    let name = cur_name("1463868505.38518452d49213cb409aa1db32f53184", "FRS");
    assert_eq!(
        split_cur_name(&name),
        Some((
            String::from("1463868505.38518452d49213cb409aa1db32f53184"),
            String::from("FRS")
        ))
    );
}

#[test]
fn find_sep_reports_first_position() {
    assert_eq!(find_sep("abc:2,SR"), Some(3));
    assert_eq!(find_sep(":2,"), Some(0));
    assert_eq!(find_sep("ab"), None);
    assert_eq!(find_sep("a:2x,b"), None);
}
