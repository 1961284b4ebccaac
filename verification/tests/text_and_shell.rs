use jellyfin_pulga::shell::shell_escape;
use jellyfin_pulga::text::{
    decimal_string, first_line_of, join_strings, nonempty_lines, parse_u64, replace_str,
    str_contains, trim_end_char_str, trim_str,
};

#[test]
fn shell_escape_leaves_plain_words() {
    assert_eq!(shell_escape("/srv/media/movies"), "/srv/media/movies");
    assert_eq!(shell_escape("file.mkv"), "file.mkv");
    assert_eq!(shell_escape(""), "");
}

#[test]
fn shell_escape_quotes_special_words() {
    assert_eq!(shell_escape("My Movie.mkv"), "'My Movie.mkv'");
    assert_eq!(shell_escape("a$b"), "'a$b'");
    assert_eq!(shell_escape("it's"), "'it'\\''s'");
    assert_eq!(shell_escape("(2020)"), "'(2020)'");
    assert_eq!(shell_escape("tab\there"), "'tab\there'");
}

#[test]
fn trim_removes_unicode_whitespace() {
    assert_eq!(trim_str("  ok \n"), "ok");
    assert_eq!(trim_str("\u{3000}x\u{a0}"), "x");
    assert_eq!(trim_str("   "), "");
}

#[test]
fn first_line_follows_str_lines() {
    assert_eq!(first_line_of("first\nsecond"), "first");
    assert_eq!(first_line_of("crlf\r\nnext"), "crlf");
    assert_eq!(first_line_of(""), "");
    assert_eq!(first_line_of("\nsecond"), "");
    assert_eq!(first_line_of("lone\r"), "lone\r");
}

#[test]
fn nonempty_lines_skip_blank_lines() {
    assert_eq!(nonempty_lines("a\n\nb\r\nc"), vec!["a", "b", "c"]);
    assert_eq!(nonempty_lines("x\n"), vec!["x"]);
    assert!(nonempty_lines("").is_empty());
    assert!(nonempty_lines("\n\n").is_empty());
}

#[test]
fn replace_matches_str_replace() {
    for (s, from, to) in [
        ("http://localhost:8096", "localhost", "host.docker.internal"),
        ("aaa", "aa", "b"),
        ("ab", "", "X"),
        ("it's", "'", "'\\''"),
        ("none", "zz", "y"),
    ] {
        assert_eq!(replace_str(s, from, to), s.replace(from, to));
    }
}

#[test]
fn decimal_formatting() {
    assert_eq!(decimal_string(0), "0");
    assert_eq!(decimal_string(22), "22");
    assert_eq!(decimal_string(u64::MAX), u64::MAX.to_string());
}

#[test]
fn parse_matches_std() {
    for s in ["0", "42", "+7", "", "+", "-1", "12a", "18446744073709551615", "18446744073709551616", " 5"] {
        assert_eq!(parse_u64(s), s.parse::<u64>().ok(), "input {s:?}");
    }
}

#[test]
fn join_and_contains() {
    let parts = vec!["a".to_string(), "b".to_string(), "c".to_string()];
    assert_eq!(join_strings(&parts, ", "), "a, b, c");
    assert_eq!(join_strings(&Vec::new(), ", "), "");
    assert!(str_contains("Movie.WWW.YTS.txt", "WWW.YTS"));
    assert!(!str_contains("Movie.txt", "RARBG"));
    assert!(str_contains("anything", ""));
}

#[test]
fn trailing_slashes_are_trimmed() {
    assert_eq!(trim_end_char_str("http://host:8096///", '/'), "http://host:8096");
    assert_eq!(trim_end_char_str("http://host:8096", '/'), "http://host:8096");
    assert_eq!(trim_end_char_str("///", '/'), "");
}

#[test]
fn lines_agree_with_std() {
    for s in ["a\nb", "a\r\nb\r\n", "\n", "", "x\r", "one\n\ntwo", "a\r\r\nb"] {
        assert_eq!(first_line_of(s), s.lines().next().unwrap_or(""), "input {s:?}");
        let expected: Vec<&str> = s.lines().filter(|l| !l.is_empty()).collect();
        assert_eq!(nonempty_lines(s), expected, "input {s:?}");
    }
}

#[test]
fn trim_agrees_with_std() {
    for s in ["  a b  ", "\t\n", "\u{2028}x\u{85}", "x", "\u{200b}y"] {
        assert_eq!(trim_str(s), s.trim(), "input {s:?}");
    }
}

/// Reads a word the way a POSIX shell reads quoted and escaped characters.
fn read_word(word: &str) -> String {
    let mut out = String::new();
    let mut chars = word.chars();
    while let Some(c) = chars.next() {
        match c {
            '\'' => {
                for q in chars.by_ref() {
                    if q == '\'' {
                        break;
                    }
                    out.push(q);
                }
            }
            '\\' => {
                if let Some(n) = chars.next() {
                    out.push(n);
                }
            }
            other => out.push(other),
        }
    }
    out
}

#[test]
fn escaped_words_read_back_unchanged() {
    for s in ["plain", "two words", "it's", "''", "a'b'c", "$HOME", "semi;colon", "back\\slash", "ünï cödé"] {
        assert_eq!(read_word(&shell_escape(s)), s, "input {s:?}");
    }
}
