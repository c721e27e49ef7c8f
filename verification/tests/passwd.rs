use subterminal::sys::unix::linux::passwd::{
    lookup_user_step, parse_u32, passwd_line, split_fields, user_ids_plausible, PasswdLine,
    UserLookup,
};

#[test]
fn parse_u32_accepts_what_std_accepts() {
    for text in ["0", "42", "+7", "0012", "4294967295", "", "+", "-", "-1", "4294967296", "1a",
        " 1", "++1", "99999999999999999999"]
    {
        assert_eq!(parse_u32(text.as_bytes()), text.parse::<u32>().ok(), "{:?}", text);
    }
}

#[test]
fn split_fields_on_colons() {
    let f = split_fields(b"a::b:", b':');
    assert_eq!(f, vec![b"a".to_vec(), vec![], b"b".to_vec(), vec![]]);
    assert_eq!(split_fields(b"", b':'), vec![Vec::<u8>::new()]);
}

#[test]
fn passwd_line_of_the_user() {
    let line = b"root:x:0:0:root:/root:/bin/bash";
    assert_eq!(passwd_line(line, b"root"), PasswdLine::User { uid: 0, gid: 0 });
    let line = b"alice:x:1000:100:Alice:/home/alice:/bin/sh";
    assert_eq!(passwd_line(line, b"alice"), PasswdLine::User { uid: 1000, gid: 100 });
}

#[test]
fn passwd_line_of_another_user() {
    let line = b"daemon:x:1:1:daemon:/usr/sbin:/usr/sbin/nologin";
    assert_eq!(passwd_line(line, b"root"), PasswdLine::OtherUser);
    assert_eq!(passwd_line(b"rootx:x:0:0", b"root"), PasswdLine::OtherUser);
}

#[test]
fn passwd_line_malformed() {
    assert_eq!(passwd_line(b"bob:x:abc:1", b"bob"), PasswdLine::Malformed);
    assert_eq!(passwd_line(b"bob:x:1", b"bob"), PasswdLine::Malformed);
    assert_eq!(passwd_line(b"bob", b"bob"), PasswdLine::Malformed);
    assert_eq!(passwd_line(b"bob:x:1:-2", b"bob"), PasswdLine::Malformed);
}

#[test]
fn lookup_steps() {
    assert_eq!(lookup_user_step(None, b"bob"), UserLookup::NoSuchUser);
    assert_eq!(lookup_user_step(Some(b"eve:x:5:5"), b"bob"), UserLookup::NextLine);
    assert_eq!(lookup_user_step(Some(b"bob:x:5:6"), b"bob"), UserLookup::Found { uid: 5, gid: 6 });
    assert_eq!(lookup_user_step(Some(b"bob:x::6"), b"bob"), UserLookup::Malformed);
}

#[test]
fn ids_plausibility() {
    assert!(user_ids_plausible(0, 0, b"root"));
    assert!(!user_ids_plausible(0, 0, b"bob"));
    assert!(user_ids_plausible(0, 5, b"bob"));
    assert!(user_ids_plausible(1000, 1000, b"bob"));
}
