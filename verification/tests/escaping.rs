use rtx_shell::escape::{xonsh_escape_char, xonsh_escape_sq};
use rtx_shell::escape_dq::{xonsh_escape_dq, xonsh_escape_dq_char};
use std::borrow::Cow;

/// Reads the body of a single-quoted literal the way the interpreter does,
/// for the three escape sequences that the escaper writes.
fn read_literal(body: &str) -> Option<String> {
    let mut out = String::new();
    let mut chars = body.chars();
    while let Some(c) = chars.next() {
        match c {
            '\\' => match chars.next() {
                Some('\'') => out.push('\''),
                Some('\\') => out.push('\\'),
                Some('n') => out.push('\n'),
                _ => return None,
            },
            '\'' | '\n' | '\r' | '\0' => return None,
            other => out.push(other),
        }
    }
    Some(out)
}

#[test]
fn escape_char_knows_three_characters() {
    assert_eq!(xonsh_escape_char('\''), Some("\\'"));
    assert_eq!(xonsh_escape_char('\\'), Some("\\\\"));
    assert_eq!(xonsh_escape_char('\n'), Some("\\n"));
    assert_eq!(xonsh_escape_char('a'), None);
    assert_eq!(xonsh_escape_char('"'), None);
    assert_eq!(xonsh_escape_char('\r'), None);
    assert_eq!(xonsh_escape_char('n'), None);
}

#[test]
fn clean_input_comes_back_borrowed() {
    let input = String::from("/usr/local/bin");
    match xonsh_escape_sq(&input) {
        Cow::Borrowed(text) => {
            assert_eq!(text, "/usr/local/bin");
            assert_eq!(text.as_ptr(), input.as_ptr());
        }
        Cow::Owned(_) => panic!("clean input was copied"),
    }
    assert!(matches!(xonsh_escape_sq(""), Cow::Borrowed("")));
    assert!(matches!(xonsh_escape_sq("h\u{e9}llo \"w\""), Cow::Borrowed(_)));
}

#[test]
fn input_with_special_characters_comes_back_owned() {
    assert!(matches!(xonsh_escape_sq("'"), Cow::Owned(_)));
    assert_eq!(xonsh_escape_sq("'"), "\\'");
    assert_eq!(xonsh_escape_sq("\\"), "\\\\");
    assert_eq!(xonsh_escape_sq("\n"), "\\n");
    assert_eq!(xonsh_escape_sq("a'b\\c\nd"), "a\\'b\\\\c\\nd");
    assert_eq!(xonsh_escape_sq("'\\\n"), "\\'\\\\\\n");
    assert_eq!(xonsh_escape_sq("abc'"), "abc\\'");
}

#[test]
fn text_before_the_first_special_character_is_kept() {
    assert_eq!(xonsh_escape_sq("\u{e9}'"), "\u{e9}\\'");
    assert_eq!(xonsh_escape_sq("\u{e9}\u{e9}'x"), "\u{e9}\u{e9}\\'x");
    assert_eq!(xonsh_escape_sq("\u{1f600}\\\u{1f600}"), "\u{1f600}\\\\\u{1f600}");
}

#[test]
fn escaped_text_reads_back_as_the_input() {
    let inputs = [
        "",
        "plain",
        "'",
        "\\",
        "\n",
        "''",
        "\\\\",
        "\\'",
        "'\\",
        "\\n",
        "\n\\",
        "a'b\\c\nd",
        "'\\\n'\\\n",
        "it's a \\ \"test\"\n",
        "\u{e9}'\u{1f600}\\",
    ];
    for input in inputs {
        let escaped = xonsh_escape_sq(input);
        assert_eq!(read_literal(&escaped), Some(input.to_string()));
    }
}

#[test]
fn escaped_value_has_seven_characters_again() {
    let escaped = xonsh_escape_sq("a'b\\c\nd");
    let value = read_literal(&escaped).unwrap();
    assert_eq!(value.chars().count(), 7);
    assert_eq!(value, "a'b\\c\nd");
}

/// Reads the body of a double-quoted literal the way the interpreter does,
/// for the three escape sequences that the escaper writes.
fn read_dq_literal(body: &str) -> Option<String> {
    let mut out = String::new();
    let mut chars = body.chars();
    while let Some(c) = chars.next() {
        match c {
            '\\' => match chars.next() {
                Some('"') => out.push('"'),
                Some('\\') => out.push('\\'),
                Some('n') => out.push('\n'),
                _ => return None,
            },
            '"' | '\n' | '\r' | '\0' => return None,
            other => out.push(other),
        }
    }
    Some(out)
}

#[test]
fn dq_escape_char_knows_three_characters() {
    assert_eq!(xonsh_escape_dq_char('"'), Some("\\\""));
    assert_eq!(xonsh_escape_dq_char('\\'), Some("\\\\"));
    assert_eq!(xonsh_escape_dq_char('\n'), Some("\\n"));
    assert_eq!(xonsh_escape_dq_char('\''), None);
    assert_eq!(xonsh_escape_dq_char('a'), None);
    assert_eq!(xonsh_escape_dq_char('\r'), None);
}

#[test]
fn dq_escape_keeps_clean_text_and_escapes_the_rest() {
    assert_eq!(xonsh_escape_dq(""), "");
    assert_eq!(xonsh_escape_dq("/some/dir/rtx"), "/some/dir/rtx");
    assert_eq!(xonsh_escape_dq("it's"), "it's");
    assert_eq!(xonsh_escape_dq("/o\"x/bin/tool"), "/o\\\"x/bin/tool");
    assert_eq!(xonsh_escape_dq("a\\b"), "a\\\\b");
    assert_eq!(xonsh_escape_dq("a\nb"), "a\\nb");
    assert_eq!(xonsh_escape_dq("\u{e9}\"\u{1f600}"), "\u{e9}\\\"\u{1f600}");
}

#[test]
fn dq_escaped_text_reads_back_as_the_input() {
    let inputs = [
        "",
        "/some/dir/rtx",
        "\"",
        "\\",
        "\n",
        "\\\"",
        "\"\\",
        "\\n",
        "/o\"x/b\\in/tool",
        "it's \"quoted\"\n",
        "\u{e9}\"\u{1f600}\\",
    ];
    for input in inputs {
        let escaped = xonsh_escape_dq(input);
        assert_eq!(read_dq_literal(&escaped), Some(input.to_string()));
    }
}
