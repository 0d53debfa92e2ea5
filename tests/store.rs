use cserver::list::List;
use cserver::persist::{create_data_list, get_user_list_as_string};
use cserver::text::{clean_input, clean_string, split_char, trim_null};

#[test]
fn unknown_user_is_neither_present_nor_verified() {
    let mut l = List::new();
    assert!(!l.check_key("bob"));
    assert!(!l.check("bob", ""));
    assert!(!l.check("bob", "pw"));
    assert!(l.add("alice", "secret"));
    assert!(!l.check_key("bob"));
    assert!(!l.check("bob", "secret"));
    assert_eq!(l.get_value("bob"), None);
}

#[test]
fn add_then_verify() {
    let mut l = List::new();
    assert!(l.get().is_none());
    assert!(l.add("alice", "secret"));
    assert!(l.check_key("alice"));
    assert!(l.check("alice", "secret"));
    assert!(!l.check("alice", "Secret"));
    assert!(!l.check("alice", "secret "));
    assert_eq!(l.get_value("alice").map(|s| s.as_str()), Some("secret"));
    assert_eq!(l.get().map(|v| v.len()), Some(1));
}

#[test]
fn add_twice_keeps_first_password() {
    let mut l = List::new();
    assert!(l.add("alice", "secret"));
    assert!(!l.add("alice", "other"));
    assert!(l.check("alice", "secret"));
    assert!(!l.check("alice", "other"));
    assert_eq!(l.get().map(|v| v.len()), Some(1));
}

#[test]
fn serialize_store() {
    let mut l = List::new();
    assert_eq!(get_user_list_as_string(&l), "");
    l.add("alice", "secret");
    l.add("bob", "pw");
    assert_eq!(get_user_list_as_string(&l), "alice\tsecret\nbob\tpw\n");
}

#[test]
fn parse_file_text() {
    let l = create_data_list("alice\tsecret\n\nbob\tpw").unwrap();
    assert!(l.check("alice", "secret"));
    assert!(l.check("bob", "pw"));
    assert_eq!(l.get().map(|v| v.len()), Some(2));
    let empty = create_data_list("").unwrap();
    assert!(empty.get().is_none());
    let dup = create_data_list("a\t1\na\t2\n").unwrap();
    assert!(dup.check("a", "1"));
    assert_eq!(dup.get().map(|v| v.len()), Some(1));
}

#[test]
fn parse_rejects_malformed_lines() {
    assert!(create_data_list("alice\n").is_none());
    assert!(create_data_list("a\tb\tc\n").is_none());
    assert!(create_data_list("a\tb\nbroken\n").is_none());
}

#[test]
fn round_trip() {
    let mut l = List::new();
    l.add("alice", "secret");
    l.add("bob", "");
    l.add("", "x");
    let text = get_user_list_as_string(&l);
    let back = create_data_list(&text).unwrap();
    assert_eq!(get_user_list_as_string(&back), text);
    for (u, p) in [("alice", "secret"), ("bob", ""), ("", "x")] {
        assert!(back.check_key(u));
        assert!(back.check(u, p));
    }
    assert!(!back.check_key("carol"));
}

#[test]
fn split_pieces() {
    assert_eq!(split_char("a.b..c", '.'), vec!["a", "b", "", "c"]);
    assert_eq!(split_char("", '.'), vec![""]);
    assert_eq!(split_char(".", '.'), vec!["", ""]);
}

#[test]
fn clean_and_trim() {
    let raw = String::from("alice\r\n");
    assert_eq!(clean_string(&raw), "alice\0\0");
    assert_eq!(trim_null(&String::from("\0\0ab\0c\0")), "ab\0c");
    assert_eq!(trim_null(&String::from("\0\0")), "");
    assert_eq!(clean_input(&String::from("a b\r\n\0\0\0")), "a b");
    assert_eq!(clean_input(&String::from("\n")), "");
}
