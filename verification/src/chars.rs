//! The classes of characters of the trace grammar, runs of characters of one
//! class, and texts that stand in a text.

use vstd::prelude::*;

verus! {

/// The classes of characters that the grammar scans in runs.
#[derive(Clone, Copy, Debug, PartialEq, Eq, Structural)]
pub enum CharClass {
    /// `0` to `9`.
    Digit,
    /// `0` to `7`.
    Octal,
    /// `0` to `9`, `a` to `f`, `A` to `F`.
    Hex,
    /// Letters, digits and `_`: the characters of an identifier.
    Word,
    /// The space character alone.
    Space,
    /// Anything but a space, a colon, an opening parenthesis or a quote: the
    /// characters of the path of the tracer's binary.
    Program,
}

/// Whether `c` is a decimal digit.
pub open spec fn is_digit(c: char) -> bool {
    '0' <= c <= '9'
}

/// Whether `c` is an octal digit.
pub open spec fn is_octal(c: char) -> bool {
    '0' <= c <= '7'
}

/// Whether `c` is a hexadecimal digit, of either case.
pub open spec fn is_hex(c: char) -> bool {
    is_digit(c) || 'a' <= c <= 'f' || 'A' <= c <= 'F'
}

/// Whether `c` can begin a name: whether it is a letter of ASCII or `_`.
pub open spec fn is_letter(c: char) -> bool {
    'a' <= c <= 'z' || 'A' <= c <= 'Z' || c == '_'
}

/// Whether `c` can stand in a name: whether it is a letter of ASCII, a digit or `_`.
pub open spec fn is_word(c: char) -> bool {
    is_letter(c) || is_digit(c)
}

impl CharClass {
    /// Whether `c` belongs to the class.
    pub open spec fn contains(self, c: char) -> bool {
        match self {
            CharClass::Digit => is_digit(c),
            CharClass::Octal => is_octal(c),
            CharClass::Hex => is_hex(c),
            CharClass::Word => is_word(c),
            CharClass::Space => c == ' ',
            CharClass::Program => c != ' ' && c != ':' && c != '(' && c != '"',
        }
    }

    /// Tells whether `c` belongs to the class.
    pub fn has(self, c: char) -> (r: bool)
        ensures
            r == self.contains(c),
    {
        match self {
            CharClass::Digit => '0' <= c && c <= '9',
            CharClass::Octal => '0' <= c && c <= '7',
            CharClass::Hex => ('0' <= c && c <= '9') || ('a' <= c && c <= 'f') || ('A' <= c
                && c <= 'F'),
            CharClass::Word => ('a' <= c && c <= 'z') || ('A' <= c && c <= 'Z') || c == '_' || ('0'
                <= c && c <= '9'),
            CharClass::Space => c == ' ',
            CharClass::Program => c != ' ' && c != ':' && c != '(' && c != '"',
        }
    }
}

/// Whether the character at index `i` of `s` exists and is `c`.
pub open spec fn at(s: Seq<char>, i: int, c: char) -> bool {
    0 <= i < s.len() && s[i] == c
}

/// Whether the character at index `i` of `s` exists and is a letter or `_`.
pub open spec fn letter_at(s: Seq<char>, i: int) -> bool {
    0 <= i < s.len() && is_letter(s[i])
}

/// Whether the character at index `i` of `s` exists and is a letter, a digit or `_`.
pub open spec fn word_at(s: Seq<char>, i: int) -> bool {
    0 <= i < s.len() && is_word(s[i])
}

/// Whether `lit` stands in `s` at index `i`.
pub open spec fn has_lit(s: Seq<char>, i: int, lit: Seq<char>) -> bool {
    0 <= i && i + lit.len() <= s.len() && s.subrange(i, i + lit.len()) == lit
}

/// The index just past the longest run of characters of `class` that starts at `i`.
pub open spec fn run_end(s: Seq<char>, i: int, class: CharClass) -> int
    decreases s.len() - i,
{
    if 0 <= i < s.len() && class.contains(s[i]) {
        run_end(s, i + 1, class)
    } else {
        i
    }
}

/// A run ends at or after its start, inside the text, and holds only characters of its class.
pub(crate) proof fn lemma_run_end(s: Seq<char>, i: int, class: CharClass)
    requires
        0 <= i <= s.len(),
    ensures
        i <= run_end(s, i, class) <= s.len(),
        forall|k: int| i <= k < run_end(s, i, class) ==> class.contains(#[trigger] s[k]),
        !(0 <= run_end(s, i, class) < s.len() && class.contains(s[run_end(s, i, class)])),
    decreases s.len() - i,
{
    if i < s.len() && class.contains(s[i]) {
        lemma_run_end(s, i + 1, class);
    }
}

/// A run of characters that are all of the class, to the end of the text, ends
/// at the end of the text.
pub(crate) proof fn lemma_run_to_the_end(s: Seq<char>, i: int, class: CharClass)
    requires
        0 <= i <= s.len(),
        forall|k: int| i <= k < s.len() ==> class.contains(#[trigger] s[k]),
    ensures
        run_end(s, i, class) == s.len(),
    decreases s.len() - i,
{
    if i < s.len() {
        lemma_run_to_the_end(s, i + 1, class);
    }
}

/// Tells whether the character at index `i` of `s` exists and is `c`.
pub fn is_at(s: &[char], i: usize, c: char) -> (r: bool)
    ensures
        r == at(s@, i as int, c),
{
    i < s.len() && s[i] == c
}

/// Tells whether the character at index `i` of `s` exists and can begin a name.
pub fn is_letter_at(s: &[char], i: usize) -> (r: bool)
    ensures
        r == letter_at(s@, i as int),
{
    i < s.len() && (('a' <= s[i] && s[i] <= 'z') || ('A' <= s[i] && s[i] <= 'Z') || s[i] == '_')
}

/// Tells whether the character at index `i` of `s` exists and can stand in a name.
pub fn is_word_at(s: &[char], i: usize) -> (r: bool)
    ensures
        r == word_at(s@, i as int),
{
    i < s.len() && CharClass::Word.has(s[i])
}

/// Tells whether the literal `lit` stands in `s` at index `i`.
pub fn starts_with_at(s: &[char], i: usize, lit: &str) -> (r: bool)
    ensures
        r == has_lit(s@, i as int, lit@),
{
    let n = lit.unicode_len();
    if i > s.len() || n > s.len() - i {
        return false;
    }
    let mut k: usize = 0;
    while k < n
        invariant
            k <= n,
            n == lit@.len(),
            i + n <= s.len(),
            forall|m: int| 0 <= m < k ==> s@[i + m] == lit@[m],
        decreases n - k,
    {
        if s[i + k] != lit.get_char(k) {
            assert(s@.subrange(i as int, i + n)[k as int] != lit@[k as int]);
            return false;
        }
        k += 1;
    }
    assert(s@.subrange(i as int, i + n) =~= lit@);
    true
}

/// Scans the longest run of characters of `class` from index `i`.
pub fn scan_run(s: &[char], i: usize, class: CharClass) -> (j: usize)
    requires
        i <= s.len(),
    ensures
        j == run_end(s@, i as int, class),
        i <= j <= s.len(),
{
    let mut j: usize = i;
    while j < s.len() && class.has(s[j])
        invariant
            i <= j <= s.len(),
            run_end(s@, j as int, class) == run_end(s@, i as int, class),
        decreases s.len() - j,
    {
        j += 1;
    }
    j
}

} // verus!
