//! Strings as the tracer writes them when it is asked to escape every byte:
//! `\x2f\x65\x74\x63` for `/etc`.

use vstd::prelude::*;
use vstd::utf8::{decode_utf8, valid_utf8};
use crate::chars::{is_at, is_hex};
use crate::number::digit_value;
use crate::text::{chars_to_string, to_chars, utf8_text};

verus! {

/// The text without the markers `\x`, found from left to right.
pub open spec fn without_markers(text: Seq<char>) -> Seq<char>
    decreases text.len(),
{
    if text.len() == 0 {
        text
    } else if text.len() >= 2 && text[0] == '\\' && text[1] == 'x' {
        without_markers(text.skip(2))
    } else {
        seq![text[0]] + without_markers(text.skip(1))
    }
}

/// Whether `digits` is an even number of hexadecimal digits.
pub open spec fn is_hex_text(digits: Seq<char>) -> bool {
    digits.len() % 2 == 0 && forall|k: int| 0 <= k < digits.len() ==> is_hex(#[trigger] digits[k])
}

/// The bytes that `digits` stands for, two digits to the byte, the first of the
/// two weighing 16.
pub open spec fn hex_bytes(digits: Seq<char>) -> Seq<u8> {
    Seq::new(
        digits.len() / 2,
        |k: int| (digit_value(digits[2 * k]) * 16 + digit_value(digits[2 * k + 1])) as u8,
    )
}

/// What an escaped string decodes to: the text that its bytes encode in UTF-8,
/// and the string itself where, without its markers, it is not an even number of
/// hexadecimal digits or the bytes are not UTF-8.
pub open spec fn decoded_hex(text: Seq<char>) -> Seq<char> {
    let digits = without_markers(text);
    if is_hex_text(digits) && valid_utf8(hex_bytes(digits)) {
        decode_utf8(hex_bytes(digits))
    } else {
        text
    }
}

/// Decodes hexadecimal digits into bytes.
///
/// Stands for `hex::decode`: it gives the bytes where the text is an even number
/// of hexadecimal digits, of either case, and an error otherwise, which comes
/// back as `None`.
#[verifier::external_body]
fn hex_decode(digits: &str) -> (r: Option<Vec<u8>>)
    ensures
        match r {
            Some(bytes) => is_hex_text(digits@) && bytes@ == hex_bytes(digits@),
            None => !is_hex_text(digits@),
        },
{
    hex::decode(digits).ok()
}

/// The characters of `s` without the markers `\x`.
pub fn strip_markers(s: &[char]) -> (r: Vec<char>)
    ensures
        r@ == without_markers(s@),
{
    let mut out: Vec<char> = Vec::new();
    let mut k: usize = 0;
    assert(s@.skip(0) =~= s@);
    while k < s.len()
        invariant
            k <= s.len(),
            out@ + without_markers(s@.skip(k as int)) == without_markers(s@),
        decreases s.len() - k,
    {
        let rest = Ghost(s@.skip(k as int));
        if s[k] == '\\' && is_at(s, k + 1, 'x') {
            assert(rest@.skip(2) =~= s@.skip(k + 2));
            k += 2;
        } else {
            assert(rest@.skip(1) =~= s@.skip(k + 1));
            assert((out@.push(s@[k as int])) + without_markers(s@.skip(k + 1)) =~= out@
                + without_markers(rest@));
            out.push(s[k]);
            k += 1;
        }
    }
    assert(out@ + without_markers(s@.skip(k as int)) =~= out@);
    out
}

/// Decodes a string in which every byte is escaped as `\x` and two hexadecimal
/// digits. A string that cannot be decoded comes back as it is.
pub fn decode_hex(s: &str) -> (r: String)
    ensures
        r@ == decoded_hex(s@),
{
    let chars = to_chars(s);
    let digits = strip_markers(chars.as_slice());
    let text = chars_to_string(digits.as_slice(), 0, digits.len());
    assert(text@ =~= without_markers(s@));
    match hex_decode(text.as_str()) {
        Some(bytes) => match utf8_text(bytes.as_slice()) {
            Some(decoded) => decoded.to_owned(),
            None => s.to_owned(),
        },
        None => s.to_owned(),
    }
}

} // verus!
