use cargo_chronoscope::git::{is_white_space, read_git_head, trim, GitReply};

fn reply(success: bool, stdout: &[u8]) -> Option<GitReply> {
    Some(GitReply { success, stdout: stdout.to_vec() })
}

#[test]
fn commit_is_what_git_prints_without_the_newline() {
    assert_eq!(
        read_git_head(&reply(true, b"8f14e45fceea167a5a36dedd4bea2543b1b1cf2a\n")),
        Some("8f14e45fceea167a5a36dedd4bea2543b1b1cf2a".to_string())
    );
    assert_eq!(read_git_head(&reply(true, b"")), Some(String::new()));
}

#[test]
fn no_commit_without_git() {
    assert_eq!(read_git_head(&reply(false, b"HEAD\n")), None);
    assert_eq!(read_git_head(&None), None);
}

#[test]
fn invalid_bytes_are_replaced() {
    assert_eq!(read_git_head(&reply(true, b" ab\xff\r\n")), Some("ab\u{fffd}".to_string()));
    assert_eq!(read_git_head(&reply(true, "é→\n".as_bytes())), Some("é→".to_string()));
}

#[test]
fn white_space_is_that_of_unicode() {
    for c in '\0'..=char::MAX {
        assert_eq!(is_white_space(c), c.is_whitespace());
    }
}

#[test]
fn trimming() {
    for s in ["", " ", "a", " a", "a ", "\t a b\u{3000}\n", "\u{2003}\u{2003}", "a\u{200b}"] {
        assert_eq!(trim(s), s.trim());
        assert_eq!(trim(trim(s)), trim(s));
    }
}
