use git_rename_stash::error::RenameError;
use git_rename_stash::message::{checked_message, is_whitespace_char, trim_message};
use git_rename_stash::text::chars_of;

#[test]
fn surrounding_whitespace_is_removed() {
    assert_eq!(trim_message("  spaces  "), "spaces");
    assert_eq!(trim_message("renamed stash"), "renamed stash");
    assert_eq!(trim_message("\t\n x y \r\n"), "x y");
    assert_eq!(trim_message("a"), "a");
    assert_eq!(trim_message(" a"), "a");
    assert_eq!(trim_message("a "), "a");
}

#[test]
fn inner_whitespace_is_kept() {
    assert_eq!(trim_message("  two  words  "), "two  words");
    assert_eq!(trim_message("line one\nline two\n"), "line one\nline two");
}

#[test]
fn blank_messages_trim_to_nothing() {
    assert_eq!(trim_message(""), "");
    assert_eq!(trim_message(" "), "");
    assert_eq!(trim_message(" \t\r\n\u{b}\u{c}"), "");
    assert_eq!(trim_message("\u{a0}\u{2003}\u{3000}"), "");
}

#[test]
fn unicode_whitespace_is_removed_and_other_characters_are_not() {
    assert_eq!(trim_message("\u{3000}a\u{a0}"), "a");
    assert_eq!(trim_message("\u{2028}\u{85}caf\u{e9}\u{1680}"), "caf\u{e9}");
    assert_eq!(trim_message("\u{200b}a\u{200b}"), "\u{200b}a\u{200b}");
    assert_eq!(trim_message("\u{feff}a"), "\u{feff}a");
    assert_eq!(trim_message(" \u{1f600} "), "\u{1f600}");
}

#[test]
fn trimming_agrees_with_the_standard_library() {
    for text in [
        "",
        " ",
        "x",
        "  x  ",
        "\n\nx y\tz\n",
        "\u{2000}\u{200a}mid\u{2001}dle\u{205f}\u{202f}",
        "\u{1}x\u{1}",
        "\u{e}x\u{1f}",
        "\u{1fff}x\u{200b}",
        "\u{2027}x\u{202a}",
    ] {
        assert_eq!(trim_message(text), text.trim(), "{:?}", text);
    }
}

#[test]
fn whitespace_is_what_the_standard_library_calls_whitespace() {
    for code in 0..=0x10ffffu32 {
        if let Some(c) = char::from_u32(code) {
            assert_eq!(is_whitespace_char(c), c.is_whitespace(), "U+{:04X}", code);
        }
    }
}

#[test]
fn a_message_with_content_is_accepted_trimmed() {
    assert_eq!(checked_message("renamed second"), Ok("renamed second".to_string()));
    assert_eq!(checked_message("  spaces  "), Ok("spaces".to_string()));
    assert_eq!(checked_message("\tx"), Ok("x".to_string()));
}

#[test]
fn a_blank_message_is_refused() {
    assert_eq!(checked_message(""), Err(RenameError::EmptyMessage));
    assert_eq!(checked_message("   "), Err(RenameError::EmptyMessage));
    assert_eq!(checked_message("\n\t \r"), Err(RenameError::EmptyMessage));
    assert_eq!(checked_message("\u{3000}"), Err(RenameError::EmptyMessage));
}

#[test]
fn characters_come_out_in_order() {
    assert_eq!(chars_of(""), Vec::<char>::new());
    assert_eq!(chars_of("abc"), vec!['a', 'b', 'c']);
    assert_eq!(chars_of("a\u{e9}\u{1f600}"), vec!['a', '\u{e9}', '\u{1f600}']);
}
