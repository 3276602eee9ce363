//! What is read from a traced process, and how its calls are shown.

use strace_parse::fs::is_executable_mode;
use strace_parse::memory::push_word;
use strace_parse::printer::{shape_of_param, standard_stream, text_contains, ParamShape};

#[test]
fn word_is_added_lowest_byte_first() {
    let mut buf = vec![b'>'];
    assert!(push_word(&mut buf, 0x0807060504030201));
    assert_eq!(buf, vec![b'>', 1, 2, 3, 4, 5, 6, 7, 8]);
    assert!(push_word(&mut buf, i64::from_le_bytes(*b"/etc/pas")));
    assert_eq!(&buf[9..], b"/etc/pas");
    let mut negative = Vec::new();
    assert!(push_word(&mut negative, -1));
    assert_eq!(negative, vec![0xff; 8]);
    let mut lowest = Vec::new();
    assert!(!push_word(&mut lowest, i64::MIN));
    assert_eq!(lowest, Vec::<u8>::new());
}

#[test]
fn string_ends_with_its_first_zero_byte() {
    let mut buf = Vec::new();
    assert!(!push_word(&mut buf, i64::from_le_bytes(*b"swd\0junk")));
    assert_eq!(buf, b"swd");
    assert!(!push_word(&mut buf, 0));
    assert_eq!(buf, b"swd");
    assert!(!push_word(&mut buf, i64::from_le_bytes(*b"1234567\0")));
    assert_eq!(buf, b"swd1234567");
    assert!(!push_word(&mut buf, 0x0100));
    assert_eq!(buf, b"swd1234567");
}

#[test]
fn shape_of_each_kind_of_argument() {
    assert_eq!(shape_of_param("filename", "const char *", 0x7ffd), ParamShape::Text);
    assert_eq!(shape_of_param("fd", "char __user *", 0), ParamShape::Text);
    assert_eq!(shape_of_param("fd", "int", 3), ParamShape::Descriptor);
    assert_eq!(shape_of_param("fd", "unsigned int", 0), ParamShape::Descriptor);
    assert_eq!(shape_of_param("fd", "unsigned long", 0), ParamShape::Descriptor);
    assert_eq!(shape_of_param("addr", "unsigned long", 0), ParamShape::Null);
    assert_eq!(shape_of_param("addr", "unsigned long", 1), ParamShape::Number);
    assert_eq!(shape_of_param("fd", "long", 0), ParamShape::Number);
    assert_eq!(shape_of_param("flags", "int", 0), ParamShape::Number);
    assert_eq!(shape_of_param("c", "char", 0), ParamShape::Number);
}

#[test]
fn text_in_a_text() {
    assert!(text_contains("const char *", "char "));
    assert!(text_contains("char ", "char "));
    assert!(text_contains("abc", ""));
    assert!(text_contains("", ""));
    assert!(text_contains("unsigned char x", "char "));
    assert!(!text_contains("char", "char "));
    assert!(!text_contains("", "char "));
    assert!(!text_contains("cha r ", "char "));
    assert!(text_contains("caf\u{e9} char x", "char "));
}

#[test]
fn standard_streams() {
    assert_eq!(standard_stream(0), Some("STDIN"));
    assert_eq!(standard_stream(1), Some("STDOUT"));
    assert_eq!(standard_stream(2), Some("STDERR"));
    assert_eq!(standard_stream(3), None);
    assert_eq!(standard_stream(u64::MAX), None);
}

#[test]
fn executable_modes() {
    assert!(is_executable_mode(0o755));
    assert!(is_executable_mode(0o100));
    assert!(is_executable_mode(0o010));
    assert!(is_executable_mode(0o001));
    assert!(is_executable_mode(0o100644 | 0o1));
    assert!(!is_executable_mode(0o644));
    assert!(!is_executable_mode(0o100666));
    assert!(!is_executable_mode(0));
}
