use subterminal::sys::unix::linux::command::{is_whitespace, split_command};

fn words(cmd: &str) -> Vec<String> {
    split_command(cmd).into_iter().map(|w| w.into_iter().collect()).collect()
}

#[test]
fn split_echo_hello() {
    assert_eq!(words("echo hello"), vec!["echo", "hello"]);
}

#[test]
fn split_keeps_empty_pieces() {
    assert_eq!(words("a  b"), vec!["a", "", "b"]);
    assert_eq!(words(" a"), vec!["", "a"]);
    assert_eq!(words("a "), vec!["a", ""]);
    assert_eq!(words(""), vec![""]);
}

#[test]
fn split_at_unicode_white_space() {
    assert_eq!(words("a\tb\u{3000}c\u{85}d"), vec!["a", "b", "c", "d"]);
    assert_eq!(words("x\u{200B}y"), vec!["x\u{200B}y"]);
}

#[test]
fn split_matches_std() {
    for cmd in ["ls -la /tmp", "  sh -c 'exit 3'\n", "\u{2028}x\u{A0}", "plain"] {
        let expected: Vec<String> = cmd.split(char::is_whitespace).map(String::from).collect();
        assert_eq!(words(cmd), expected);
    }
}

#[test]
fn whitespace_agrees_with_std_everywhere() {
    for u in 0u32..=0x10FFFF {
        if let Some(c) = char::from_u32(u) {
            assert_eq!(is_whitespace(c), c.is_whitespace(), "U+{:04X}", u);
        }
    }
}
