//! Escaped strings.

use strace_parse::string::decode_hex;

#[test]
fn escaped_string_is_decoded() {
    assert_eq!(decode_hex(r"\x2f\x65\x74\x63"), "/etc");
    assert_eq!(
        decode_hex(r"\x2f\x65\x74\x63\x2f\x6c\x6f\x63\x61\x6c\x74\x69\x6d\x65"),
        "/etc/localtime"
    );
    assert_eq!(decode_hex(r"\x2F\x7a"), "/z");
    assert_eq!(decode_hex(r"\xc3\xa9"), "\u{e9}");
    assert_eq!(decode_hex("6162"), "ab");
    assert_eq!(decode_hex(""), "");
}

#[test]
fn string_that_cannot_be_decoded_comes_back() {
    assert_eq!(decode_hex("not-hex-\\xZZ"), "not-hex-\\xZZ");
    assert_eq!(decode_hex("/etc/ld.so.cache"), "/etc/ld.so.cache");
    assert_eq!(decode_hex(r"\x2f\x6"), r"\x2f\x6");
    assert_eq!(decode_hex(r"\xff\xfe"), r"\xff\xfe");
    assert_eq!(decode_hex(r"\xc3"), r"\xc3");
    assert_eq!(decode_hex("caf\u{e9}"), "caf\u{e9}");
    assert_eq!(decode_hex("abc"), "abc");
}
