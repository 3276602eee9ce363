//! Bytes made fit to print.

use strace_parse::utf8::{replace_nonprintable, try_parse_utf8_char};

#[test]
fn visible_ascii_is_kept() {
    assert_eq!(replace_nonprintable(b"hello world"), "hello world");
    assert_eq!(replace_nonprintable(b"/etc/ld.so.cache!~"), "/etc/ld.so.cache!~");
    assert_eq!(replace_nonprintable(b""), "");
}

#[test]
fn control_characters_get_pictures() {
    assert_eq!(replace_nonprintable(b"a\tb\n"), "a\u{21b9}b\u{240a}");
    assert_eq!(
        replace_nonprintable(&[0x00, 0x07, 0x08, 0x0d, 0x1b]),
        "\u{2400}\u{2407}\u{2408}\u{240d}\u{241b}"
    );
}

#[test]
fn other_characters_are_escaped() {
    assert_eq!(replace_nonprintable(&[0x01]), "\\u{1}");
    assert_eq!(replace_nonprintable(&[0x7f]), "\\u{7f}");
    assert_eq!(replace_nonprintable("\u{e9}".as_bytes()), "\\u{e9}");
    assert_eq!(replace_nonprintable("a\u{20ac}b".as_bytes()), "a\\u{20ac}b");
    assert_eq!(replace_nonprintable("\u{1f600}".as_bytes()), "\\u{1f600}");
}

#[test]
fn bytes_that_are_no_text_are_written_in_hexadecimal() {
    assert_eq!(replace_nonprintable(&[0xff, b'a']), "\\xFFa");
    assert_eq!(replace_nonprintable(&[0xc3]), "\\xC3");
    assert_eq!(replace_nonprintable(&[b'a', 0xe2, 0x82, b'b']), "a\\xE2\\x82b");
    assert_eq!(replace_nonprintable(&[0x80, 0x0a]), "\\x80\u{240a}");
    assert_eq!(replace_nonprintable(&[0xed, 0xa0, 0x80]), "\\xED\\xA0\\x80");
}

#[test]
fn first_character_of_bytes() {
    assert_eq!(try_parse_utf8_char(b"abc"), Some(('a', 1)));
    assert_eq!(try_parse_utf8_char(&[0xc3, 0xa9, 0x41]), Some(('\u{e9}', 2)));
    assert_eq!(try_parse_utf8_char("\u{20ac}".as_bytes()), Some(('\u{20ac}', 3)));
    assert_eq!(try_parse_utf8_char("\u{1f600}!".as_bytes()), Some(('\u{1f600}', 4)));
    assert_eq!(try_parse_utf8_char(&[0xff]), None);
    assert_eq!(try_parse_utf8_char(&[0xc3]), None);
    assert_eq!(try_parse_utf8_char(&[]), None);
}
