//! Bytes read from the memory of a traced process, made fit to print.

use vstd::prelude::*;
use vstd::slice::slice_subrange;
use vstd::string::{StrSliceExecFns, StringExecFns};
use vstd::utf8::{decode_utf8, valid_utf8};
use crate::number::{char_of_digit, digit_char, number_text, push_number};
use crate::text::{push_char, utf8_text};

verus! {

/// The first character of the text that the first `n` bytes encode, with `n`,
/// where there are `n` bytes and they are valid UTF-8.
pub open spec fn char_of_width(bytes: Seq<u8>, n: int) -> Option<(char, int)> {
    if n <= bytes.len() && valid_utf8(bytes.take(n)) {
        Some((decode_utf8(bytes.take(n))[0], n))
    } else {
        None
    }
}

/// The character at the beginning of `bytes` and the number of bytes that
/// encode it: the first of the widths 1 to 4 at which the bytes are valid UTF-8.
pub open spec fn first_char(bytes: Seq<u8>) -> Option<(char, int)> {
    if char_of_width(bytes, 1) is Some {
        char_of_width(bytes, 1)
    } else if char_of_width(bytes, 2) is Some {
        char_of_width(bytes, 2)
    } else if char_of_width(bytes, 3) is Some {
        char_of_width(bytes, 3)
    } else {
        char_of_width(bytes, 4)
    }
}

/// The digit that stands for `d` in hexadecimal, in upper case.
pub open spec fn upper_digit_char(d: int) -> char {
    if d == 10 {
        'A'
    } else if d == 11 {
        'B'
    } else if d == 12 {
        'C'
    } else if d == 13 {
        'D'
    } else if d == 14 {
        'E'
    } else if d == 15 {
        'F'
    } else {
        digit_char(d)
    }
}

/// What a character is shown as: itself where it is a space or a visible
/// character of ASCII, a picture of its own for seven control characters, and its
/// code in hexadecimal between `\u{` and `}` for every other character.
pub open spec fn shown(c: char) -> Seq<char> {
    if c == ' ' {
        seq![' ']
    } else if c == '\t' {
        seq!['\u{21b9}']
    } else if c == '\n' {
        seq!['\u{240a}']
    } else if c == '\r' {
        seq!['\u{240d}']
    } else if c == '\0' {
        seq!['\u{2400}']
    } else if c == '\x07' {
        seq!['\u{2407}']
    } else if c == '\x08' {
        seq!['\u{2408}']
    } else if c == '\x1b' {
        seq!['\u{241b}']
    } else if '!' <= c <= '~' {
        seq![c]
    } else {
        seq!['\\', 'u', '{'] + number_text(c as nat, 16) + seq!['}']
    }
}

/// What a byte that begins no character is shown as: `\x` and its two
/// hexadecimal digits in upper case.
pub open spec fn shown_byte(b: u8) -> Seq<char> {
    seq!['\\', 'x', upper_digit_char(b as int / 16), upper_digit_char(b as int % 16)]
}

/// What `bytes` are shown as: from left to right, each character that the bytes
/// encode as [`shown`] says, and each byte that begins no character as
/// [`shown_byte`] says.
pub open spec fn printable(bytes: Seq<u8>) -> Seq<char>
    decreases bytes.len(),
{
    if bytes.len() == 0 {
        Seq::empty()
    } else {
        match first_char(bytes) {
            Some((c, n)) => if 1 <= n <= bytes.len() {
                shown(c) + printable(bytes.skip(n))
            } else {
                Seq::empty()
            },
            None => shown_byte(bytes[0]) + printable(bytes.skip(1)),
        }
    }
}

/// Reads the character at the beginning of `input`.
pub fn try_parse_utf8_char(input: &[u8]) -> (r: Option<(char, usize)>)
    ensures
        match r {
            Some((c, n)) => first_char(input@) == Some((c, n as int)) && 1 <= n <= 4 && n
                <= input.len(),
            None => first_char(input@) is None,
        },
{
    let mut n: usize = 1;
    while n <= 4
        invariant
            1 <= n <= 5,
            forall|m: int| 1 <= m < n ==> char_of_width(input@, m) is None,
        decreases 5 - n,
    {
        if n <= input.len() {
            let head = slice_subrange(input, 0, n);
            assert(head@ =~= input@.take(n as int));
            match utf8_text(head) {
                Some(text) => {
                    assert(text@.len() > 0);
                    return Some((text.get_char(0), n));
                },
                None => {},
            }
        }
        n += 1;
    }
    None
}

/// The digit that stands for `d` in hexadecimal, in upper case.
pub fn upper_char_of_digit(d: u8) -> (c: char)
    requires
        d < 16,
    ensures
        c == upper_digit_char(d as int),
{
    if d == 10 {
        'A'
    } else if d == 11 {
        'B'
    } else if d == 12 {
        'C'
    } else if d == 13 {
        'D'
    } else if d == 14 {
        'E'
    } else if d == 15 {
        'F'
    } else {
        char_of_digit(d)
    }
}

/// Appends to `out` what `c` is shown as.
pub fn push_shown(out: &mut String, c: char)
    ensures
        final(out)@ == old(out)@ + shown(c),
{
    if c == ' ' {
        push_char(out, ' ');
    } else if c == '\t' {
        push_char(out, '\u{21b9}');
    } else if c == '\n' {
        push_char(out, '\u{240a}');
    } else if c == '\r' {
        push_char(out, '\u{240d}');
    } else if c == '\0' {
        push_char(out, '\u{2400}');
    } else if c == '\x07' {
        push_char(out, '\u{2407}');
    } else if c == '\x08' {
        push_char(out, '\u{2408}');
    } else if c == '\x1b' {
        push_char(out, '\u{241b}');
    } else if '!' <= c && c <= '~' {
        push_char(out, c);
    } else {
        push_char(out, '\\');
        push_char(out, 'u');
        push_char(out, '{');
        push_number(out, c as u64, 16);
        push_char(out, '}');
    }
    assert(out@ =~= old(out)@ + shown(c));
}

/// Shows bytes as text that can be printed: the characters that the bytes
/// encode in UTF-8, with the control characters and whatever is not ASCII made
/// visible, and each byte that is not part of a character as `\x` and two digits.
pub fn replace_nonprintable(input: &[u8]) -> (r: String)
    ensures
        r@ == printable(input@),
{
    let mut output = String::new();
    let mut idx: usize = 0;
    let len = input.len();
    assert(input@.skip(0) =~= input@);
    while idx < len
        invariant
            idx <= len == input.len(),
            output@ + printable(input@.skip(idx as int)) == printable(input@),
        decreases len - idx,
    {
        let rest = slice_subrange(input, idx, len);
        assert(rest@ =~= input@.skip(idx as int));
        let ghost before = output@;
        match try_parse_utf8_char(rest) {
            Some((c, skip_ahead)) => {
                assert(rest@.skip(skip_ahead as int) =~= input@.skip(idx + skip_ahead));
                idx += skip_ahead;
                push_shown(&mut output, c);
                assert(output@ + printable(input@.skip(idx as int)) =~= before + printable(rest@));
            },
            None => {
                assert(rest@.skip(1) =~= input@.skip(idx + 1));
                let b = input[idx];
                push_char(&mut output, '\\');
                push_char(&mut output, 'x');
                push_char(&mut output, upper_char_of_digit(b / 16));
                push_char(&mut output, upper_char_of_digit(b % 16));
                idx += 1;
                assert(output@ + printable(input@.skip(idx as int)) =~= before + printable(rest@));
            },
        }
    }
    assert(output@ + printable(input@.skip(idx as int)) =~= output@);
    output
}

} // verus!
