//! The grammar of one trace line, as functions from a text and an index to what
//! stands there.
//!
//! Each rule takes the whole line `s` and the index `i` at which it is tried, and
//! gives `None` where the rule does not match at `i`, or else what it read and the
//! index just past it. A choice between rules takes the first that matches; a
//! repetition takes as many matches as there are and goes on only while each of
//! them moves the index forward.
//!
//! ```text
//! line      := [pid ' '+] [timestamp ' '+] body _ END
//! pid       := "[pid" ' '+ digits ']'
//! timestamp := digits '.' digits
//! body      := signal | exit | kill | denied | attach | detach
//!            | call [result] | hash | array | list | bitset
//! signal    := "--- " ident [" ..." | ' ' hash] " ---"
//! exit      := "+++ exited with " int " +++"
//! kill      := "+++ killed by " ident " +++"
//! program   := one or more characters other than ' ', ':', '(' and '"'
//! denied    := program ": attach: ptrace(PTRACE_SEIZE, " digits "): Operation not permitted"
//! attach    := program ": Process " digits " attached"
//! detach    := program ": Process " digits " detached"
//! call      := ident '(' _ [value (_ ',' _ value)*] _ ')'
//! result    := _ '=' _ int [' '+ info]
//! value     := "..." | item
//! item      := string | null | hash | array | list | bitset | expr
//! string    := '"' characters '"' ["..."]
//! hash      := '{' _ [entry (_ ',' _ entry)*] [_ ',' _ "..."] _ '}'
//! entry     := ident _ '=' _ value
//! array     := '[' _ [value (_ ',' _ value)*] _ ']'
//! list      := '{' _ [item (_ item)*] [_ "..."] _ '}'
//! bitset    := ['~'] '[' (_ ident)* _ ']'
//! expr      := term (_ op _ term)*
//! term      := number | call | ident
//! number    := "0x" hex+ | '0' octal+ | ['-'] digits
//! _         := (' ' | "/*" .. "*/")*
//! ```
//!
//! A number is read where it fits its place: 64 bits in a value (with a sign, but
//! for a hexadecimal number, which gives the bits), 32
//! bits with a sign as a result or an exit code, the same without `-` as a
//! process, and 64 bits without a sign as the microseconds of a timestamp.

use vstd::prelude::*;
use crate::chars::{at, has_lit, is_digit, letter_at, run_end, word_at, CharClass};
use crate::line::Line;
use crate::number::{number_value, signed_value};
use crate::token::Token;

verus! {

/// The first of two attempts that succeeded.
pub open spec fn first_of<T>(a: Option<T>, b: Option<T>) -> Option<T> {
    if a is Some {
        a
    } else {
        b
    }
}

/// The index just past `lit`, where `lit` stands at `i`.
pub open spec fn after_lit(s: Seq<char>, i: int, lit: Seq<char>) -> Option<int> {
    if has_lit(s, i, lit) {
        Some(i + lit.len())
    } else {
        None
    }
}

/// The index just past the first `*/` at or after `j`.
pub open spec fn comment_close(s: Seq<char>, j: int) -> Option<int>
    decreases s.len() - j,
{
    if j < 0 || j + 2 > s.len() {
        None
    } else if s[j] == '*' && s[j + 1] == '/' {
        Some(j + 2)
    } else {
        comment_close(s, j + 1)
    }
}

/// The index just past the comment that opens at `i`.
pub open spec fn comment_end(s: Seq<char>, i: int) -> Option<int> {
    if at(s, i, '/') && at(s, i + 1, '*') {
        comment_close(s, i + 2)
    } else {
        None
    }
}

/// The index of the first character at or after `i` that is neither a space nor
/// inside a comment.
pub open spec fn skip_end(s: Seq<char>, i: int) -> int
    decreases s.len() - i,
{
    if at(s, i, ' ') {
        skip_end(s, i + 1)
    } else {
        match comment_end(s, i) {
            Some(j) => if i < j <= s.len() {
                skip_end(s, j)
            } else {
                i
            },
            None => i,
        }
    }
}

/// A name: a letter or `_`, then letters, digits and `_`.
pub open spec fn parse_ident(s: Seq<char>, i: int) -> Option<(Seq<char>, int)> {
    if letter_at(s, i) {
        let j = run_end(s, i + 1, CharClass::Word);
        Some((s.subrange(i, j), j))
    } else {
        None
    }
}

/// A run of one or more characters of `class`, read as a number in `base` that is
/// at most `limit`.
pub open spec fn parse_digits(s: Seq<char>, i: int, class: CharClass, base: int, limit: int)
    -> Option<(int, int)> {
    let j = run_end(s, i, class);
    if 0 <= i < j && number_value(s.subrange(i, j), base) <= limit {
        Some((number_value(s.subrange(i, j), base), j))
    } else {
        None
    }
}

/// A decimal number between `-limit - 1` and `limit`, with `-` before a negative one.
pub open spec fn parse_signed(s: Seq<char>, i: int, limit: int) -> Option<(int, int)> {
    if at(s, i, '-') {
        match parse_digits(s, i + 1, CharClass::Digit, 10, limit + 1) {
            Some((v, j)) => Some((-v, j)),
            None => None,
        }
    } else {
        parse_digits(s, i, CharClass::Digit, 10, limit)
    }
}

/// A number that fits 64 bits: hexadecimal after `0x`, octal after `0`, or else
/// decimal. A hexadecimal number gives the 64 bits themselves, so that one above
/// `i64::MAX` is the negative number of those bits; an octal or a decimal number
/// is at most `i64::MAX`, and a decimal number at least `i64::MIN`.
pub open spec fn parse_number(s: Seq<char>, i: int) -> Option<(int, int)> {
    if at(s, i, '0') && at(s, i + 1, 'x') && run_end(s, i + 2, CharClass::Hex) > i + 2 {
        match parse_digits(s, i + 2, CharClass::Hex, 16, u64::MAX as int) {
            Some((bits, j)) => Some((signed_value(bits), j)),
            None => None,
        }
    } else if at(s, i, '0') && run_end(s, i + 1, CharClass::Octal) > i + 1 {
        parse_digits(s, i + 1, CharClass::Octal, 8, i64::MAX as int)
    } else {
        parse_signed(s, i, i64::MAX as int)
    }
}

/// The text without its dots.
pub open spec fn without_dots(text: Seq<char>) -> Seq<char>
    decreases text.len(),
{
    if text.len() == 0 {
        text
    } else if text.last() == '.' {
        without_dots(text.drop_last())
    } else {
        without_dots(text.drop_last()).push(text.last())
    }
}

/// The count of microseconds that a timestamp stands for: its digits, read as one
/// decimal number.
pub open spec fn timestamp_value(text: Seq<char>) -> int {
    number_value(without_dots(text), 10)
}

/// A timestamp: digits, a dot, digits; worth at most `u64::MAX` microseconds.
pub open spec fn parse_timestamp(s: Seq<char>, i: int) -> Option<(int, int)> {
    let a = run_end(s, i, CharClass::Digit);
    let b = run_end(s, a + 1, CharClass::Digit);
    if 0 <= i < a && at(s, a, '.') && a + 1 < b && timestamp_value(s.subrange(i, b)) <= u64::MAX {
        Some((timestamp_value(s.subrange(i, b)), b))
    } else {
        None
    }
}

/// The index of the quote that closes a string whose inside begins at `j`. A
/// backslash takes the character after it along.
pub open spec fn string_close(s: Seq<char>, j: int) -> Option<int>
    decreases s.len() - j,
{
    if j < 0 || j >= s.len() {
        None
    } else if s[j] == '"' {
        Some(j)
    } else if s[j] == '\\' && j + 2 <= s.len() {
        string_close(s, j + 2)
    } else if s[j] == '\\' {
        None
    } else {
        string_close(s, j + 1)
    }
}

/// A quoted string. The dots that the tracer puts behind a string that it cut short
/// are read and dropped.
pub open spec fn parse_string(s: Seq<char>, i: int) -> Option<(Token, int)> {
    if at(s, i, '"') {
        match string_close(s, i + 1) {
            Some(q) => Some(
                (
                    Token::String(s.subrange(i + 1, q)),
                    if has_lit(s, q + 1, "..."@) {
                        q + 4
                    } else {
                        q + 1
                    },
                ),
            ),
            None => None,
        }
    } else {
        None
    }
}

/// `NULL`, where no longer name begins with it.
pub open spec fn parse_null(s: Seq<char>, i: int) -> Option<(Token, int)> {
    if has_lit(s, i, "NULL"@) && !word_at(s, i + 4) {
        Some((Token::Null, i + 4))
    } else {
        None
    }
}

/// The operators that stand between the operands of an expression.
pub open spec fn parse_op(s: Seq<char>, i: int) -> Option<(Seq<char>, int)> {
    if has_lit(s, i, "||"@) || has_lit(s, i, "&&"@) || has_lit(s, i, "<<"@) || has_lit(
        s,
        i,
        ">>"@,
    ) || has_lit(s, i, "=="@) || has_lit(s, i, "!="@) {
        Some((s.subrange(i, i + 2), i + 2))
    } else if at(s, i, '|') || at(s, i, '&') || at(s, i, '^') || at(s, i, '*') || at(s, i, '/')
        || at(s, i, '+') || at(s, i, '-') {
        Some((s.subrange(i, i + 1), i + 1))
    } else if has_lit(s, i, "or"@) && !word_at(s, i + 2) {
        Some((s.subrange(i, i + 2), i + 2))
    } else {
        None
    }
}

/// `_ ',' _`.
pub open spec fn comma_end(s: Seq<char>, i: int) -> Option<int> {
    let j = skip_end(s, i);
    if at(s, j, ',') {
        Some(skip_end(s, j + 1))
    } else {
        None
    }
}

/// The index past `_ ',' _ "..."` where that stands at `i`, else `i`.
pub open spec fn dropped_tail_end(s: Seq<char>, i: int) -> int {
    match comma_end(s, i) {
        Some(j) => if has_lit(s, j, "..."@) {
            j + 3
        } else {
            i
        },
        None => i,
    }
}

/// The names in a bit set, after those in `acc`.
pub open spec fn parse_bits(s: Seq<char>, i: int, acc: Seq<Token>) -> (Seq<Token>, int)
    decreases s.len() - i,
{
    match parse_ident(s, skip_end(s, i)) {
        Some((name, j)) => if i < j <= s.len() {
            parse_bits(s, j, acc.push(Token::Ident(name)))
        } else {
            (acc, i)
        },
        None => (acc, i),
    }
}

/// `[NAME NAME ..]` or `~[NAME NAME ..]`.
pub open spec fn parse_bit_set(s: Seq<char>, i: int) -> Option<(Token, int)> {
    let negated = at(s, i, '~');
    let open = if negated {
        i + 1
    } else {
        i
    };
    if at(s, open, '[') {
        let (bits, j) = parse_bits(s, open + 1, Seq::empty());
        let e = skip_end(s, j);
        if at(s, e, ']') {
            Some((Token::BitSet(negated, bits), e + 1))
        } else {
            None
        }
    } else {
        None
    }
}

/// A value: `...` for one that the tracer left out, or an item.
pub open spec fn parse_value(s: Seq<char>, i: int) -> Option<(Token, int)>
    decreases s.len() - i, 8int,
{
    if has_lit(s, i, "..."@) {
        Some((Token::Truncated, i + 3))
    } else {
        parse_item(s, i)
    }
}

/// An item: the first of string, `NULL`, hash, array, list, bit set and expression
/// that matches.
pub open spec fn parse_item(s: Seq<char>, i: int) -> Option<(Token, int)>
    decreases s.len() - i, 7int,
{
    first_of(
        parse_string(s, i),
        first_of(
            parse_null(s, i),
            first_of(
                parse_hash(s, i),
                first_of(
                    parse_array(s, i),
                    first_of(parse_list(s, i), first_of(parse_bit_set(s, i), parse_expr(s, i))),
                ),
            ),
        ),
    )
}

/// The values of a call or an array, after those in `acc`: the first as it
/// stands, each later one behind a comma.
pub open spec fn parse_values(s: Seq<char>, i: int, acc: Seq<Token>) -> (Seq<Token>, int)
    decreases s.len() - i, 9int,
{
    let start = if acc.len() == 0 {
        Some(i)
    } else {
        comma_end(s, i)
    };
    match start {
        Some(p) => if i <= p <= s.len() {
            match parse_value(s, p) {
                Some((t, j)) => if p < j <= s.len() {
                    parse_values(s, j, acc.push(t))
                } else {
                    (acc, i)
                },
                None => (acc, i),
            }
        } else {
            (acc, i)
        },
        None => (acc, i),
    }
}

/// `[value, value, ..]`.
pub open spec fn parse_array(s: Seq<char>, i: int) -> Option<(Token, int)>
    decreases s.len() - i, 6int,
{
    let a = skip_end(s, i + 1);
    if at(s, i, '[') && i < a <= s.len() {
        let (items, j) = parse_values(s, a, Seq::empty());
        let e = skip_end(s, j);
        if at(s, e, ']') {
            Some((Token::Array(items), e + 1))
        } else {
            None
        }
    } else {
        None
    }
}

/// `key=value`.
pub open spec fn parse_entry(s: Seq<char>, i: int) -> Option<((Seq<char>, Token), int)>
    decreases s.len() - i, 1int,
{
    match parse_ident(s, i) {
        Some((key, j)) => {
            let a = skip_end(s, j);
            let b = skip_end(s, a + 1);
            if at(s, a, '=') && i < b <= s.len() {
                match parse_value(s, b) {
                    Some((t, k)) => Some(((key, t), k)),
                    None => None,
                }
            } else {
                None
            }
        },
        None => None,
    }
}

/// The entries of a hash, after those in `acc`.
pub open spec fn parse_entries(s: Seq<char>, i: int, acc: Seq<(Seq<char>, Token)>) -> (
    Seq<(Seq<char>, Token)>,
    int,
)
    decreases s.len() - i, 9int,
{
    let start = if acc.len() == 0 {
        Some(i)
    } else {
        comma_end(s, i)
    };
    match start {
        Some(p) => if i <= p <= s.len() {
            match parse_entry(s, p) {
                Some((e, j)) => if p < j <= s.len() {
                    parse_entries(s, j, acc.push(e))
                } else {
                    (acc, i)
                },
                None => (acc, i),
            }
        } else {
            (acc, i)
        },
        None => (acc, i),
    }
}

/// `{key=value, key=value, ..}`.
pub open spec fn parse_hash(s: Seq<char>, i: int) -> Option<(Token, int)>
    decreases s.len() - i, 6int,
{
    let a = skip_end(s, i + 1);
    if at(s, i, '{') && i < a <= s.len() {
        let (entries, j) = parse_entries(s, a, Seq::empty());
        let e = skip_end(s, dropped_tail_end(s, j));
        if at(s, e, '}') {
            Some((Token::Hash(entries), e + 1))
        } else {
            None
        }
    } else {
        None
    }
}

/// The items of a list, after those in `acc`.
pub open spec fn parse_items(s: Seq<char>, i: int, acc: Seq<Token>) -> (Seq<Token>, int)
    decreases s.len() - i, 9int,
{
    let p = skip_end(s, i);
    if i <= p <= s.len() {
        match parse_item(s, p) {
            Some((t, j)) => if p < j <= s.len() {
                parse_items(s, j, acc.push(t))
            } else {
                (acc, i)
            },
            None => (acc, i),
        }
    } else {
        (acc, i)
    }
}

/// `{item item ..}`.
pub open spec fn parse_list(s: Seq<char>, i: int) -> Option<(Token, int)>
    decreases s.len() - i, 6int,
{
    if at(s, i, '{') {
        let (items, j) = parse_items(s, i + 1, Seq::empty());
        let a = skip_end(s, j);
        let b = if has_lit(s, a, "..."@) {
            a + 3
        } else {
            j
        };
        let e = skip_end(s, b);
        if at(s, e, '}') {
            Some((Token::List(items), e + 1))
        } else {
            None
        }
    } else {
        None
    }
}

/// The name and the values of a call: `name(value, value, ..)`.
pub open spec fn parse_call_parts(s: Seq<char>, i: int) -> Option<(Seq<char>, Seq<Token>, int)>
    decreases s.len() - i, 3int,
{
    match parse_ident(s, i) {
        Some((name, j)) => {
            let a = skip_end(s, j + 1);
            if at(s, j, '(') && i < a <= s.len() {
                let (args, k) = parse_values(s, a, Seq::empty());
                let e = skip_end(s, k);
                if at(s, e, ')') {
                    Some((name, args, e + 1))
                } else {
                    None
                }
            } else {
                None
            }
        },
        None => None,
    }
}

/// A call inside a line: a call without a result.
pub open spec fn parse_call(s: Seq<char>, i: int) -> Option<(Token, int)>
    decreases s.len() - i, 4int,
{
    match parse_call_parts(s, i) {
        Some((name, args, j)) => Some((Token::Call { name, args, result: None, info: None }, j)),
        None => None,
    }
}

/// An operand: a number, a call or a name.
pub open spec fn parse_term(s: Seq<char>, i: int) -> Option<(Token, int)>
    decreases s.len() - i, 5int,
{
    match parse_number(s, i) {
        Some((n, j)) => Some((Token::Number(n), j)),
        None => first_of(
            parse_call(s, i),
            match parse_ident(s, i) {
                Some((name, j)) => Some((Token::Ident(name), j)),
                None => None,
            },
        ),
    }
}

/// The operators and operands of an expression, after those in `acc`.
pub open spec fn parse_operands(s: Seq<char>, i: int, acc: Seq<Token>) -> (Seq<Token>, int)
    decreases s.len() - i, 1int,
{
    match parse_op(s, skip_end(s, i)) {
        Some((op, b)) => {
            let c = skip_end(s, b);
            if i < c <= s.len() {
                match parse_term(s, c) {
                    Some((t, j)) => if c < j <= s.len() {
                        parse_operands(s, j, acc.push(Token::Op(op)).push(t))
                    } else {
                        (acc, i)
                    },
                    None => (acc, i),
                }
            } else {
                (acc, i)
            }
        },
        None => (acc, i),
    }
}

/// An expression: operands with operators between them.
pub open spec fn parse_expr(s: Seq<char>, i: int) -> Option<(Token, int)>
    decreases s.len() - i, 6int,
{
    match parse_term(s, i) {
        Some((t, j)) => if i < j <= s.len() {
            let (items, k) = parse_operands(s, j, seq![t]);
            Some((Token::Expr(items), k))
        } else {
            None
        },
        None => None,
    }
}

/// Whether `text` is a timestamp that can be decoded: without its dots it is one
/// or more digits, worth at most `u64::MAX`.
pub open spec fn is_timestamp(text: Seq<char>) -> bool {
    &&& without_dots(text).len() > 0
    &&& forall|k: int| 0 <= k < without_dots(text).len() ==> is_digit(#[trigger] without_dots(text)[k])
    &&& timestamp_value(text) <= u64::MAX
}

/// One or more spaces.
pub open spec fn spaces_end(s: Seq<char>, i: int) -> Option<int> {
    let j = run_end(s, i, CharClass::Space);
    if 0 <= i < j {
        Some(j)
    } else {
        None
    }
}

/// `[pid N]` and the spaces behind it. The tracer pads the number with spaces.
pub open spec fn parse_pid_prefix(s: Seq<char>, i: int) -> Option<(int, int)> {
    match after_lit(s, i, "[pid"@) {
        Some(a) => match spaces_end(s, a) {
            Some(b) => match parse_digits(s, b, CharClass::Digit, 10, i32::MAX as int) {
                Some((pid, j)) => if at(s, j, ']') {
                    match spaces_end(s, j + 1) {
                        Some(e) => Some((pid, e)),
                        None => None,
                    }
                } else {
                    None
                },
                None => None,
            },
            None => None,
        },
        None => None,
    }
}

/// A timestamp and the spaces behind it.
pub open spec fn parse_time_prefix(s: Seq<char>, i: int) -> Option<(int, int)> {
    match parse_timestamp(s, i) {
        Some((micros, j)) => match spaces_end(s, j) {
            Some(e) => Some((micros, e)),
            None => None,
        },
        None => None,
    }
}

/// `--- NAME ---`, `--- NAME ... ---` or `--- NAME {..} ---`.
pub open spec fn parse_signal(s: Seq<char>, i: int) -> Option<(Token, int)> {
    match after_lit(s, i, "--- "@) {
        Some(a) => match parse_ident(s, a) {
            Some((name, j)) => if after_lit(s, j, " ---"@) is Some {
                Some((Token::Signal(name, Seq::empty()), after_lit(s, j, " ---"@).unwrap()))
            } else if after_lit(s, j, " ... ---"@) is Some {
                Some((Token::Signal(name, Seq::empty()), after_lit(s, j, " ... ---"@).unwrap()))
            } else if at(s, j, ' ') {
                match parse_hash(s, j + 1) {
                    Some((detail, k)) => match after_lit(s, k, " ---"@) {
                        Some(e) => Some((Token::Signal(name, seq![detail]), e)),
                        None => None,
                    },
                    None => None,
                }
            } else {
                None
            },
            None => None,
        },
        None => None,
    }
}

/// `+++ exited with CODE +++`.
pub open spec fn parse_exit(s: Seq<char>, i: int) -> Option<(Token, int)> {
    match after_lit(s, i, "+++ exited with "@) {
        Some(a) => match parse_signed(s, a, i32::MAX as int) {
            Some((code, j)) => match after_lit(s, j, " +++"@) {
                Some(e) => Some((Token::Exit(code), e)),
                None => None,
            },
            None => None,
        },
        None => None,
    }
}

/// `+++ killed by NAME +++`.
pub open spec fn parse_kill(s: Seq<char>, i: int) -> Option<(Token, int)> {
    match after_lit(s, i, "+++ killed by "@) {
        Some(a) => match parse_ident(s, a) {
            Some((name, j)) => match after_lit(s, j, " +++"@) {
                Some(e) => Some((Token::Kill(name), e)),
                None => None,
            },
            None => None,
        },
        None => None,
    }
}

/// The tracer's own name, `before`, a process id and `after`: the shape of what
/// the tracer says of a process that it attaches to or lets go.
pub open spec fn parse_process(s: Seq<char>, i: int, before: Seq<char>, after: Seq<char>)
    -> Option<(int, int)> {
    match after_lit(s, run_end(s, i, CharClass::Program), before) {
        Some(a) => match parse_digits(s, a, CharClass::Digit, 10, i32::MAX as int) {
            Some((pid, j)) => match after_lit(s, j, after) {
                Some(e) => if i < run_end(s, i, CharClass::Program) {
                    Some((pid, e))
                } else {
                    None
                },
                None => None,
            },
            None => None,
        },
        None => None,
    }
}

/// The notice that the tracer may not attach to a process.
pub open spec fn parse_denied(s: Seq<char>, i: int) -> Option<(Token, int)> {
    match parse_process(
        s,
        i,
        ": attach: ptrace(PTRACE_SEIZE, "@,
        "): Operation not permitted"@,
    ) {
        Some((pid, e)) => Some((Token::PermissionDenied(pid), e)),
        None => None,
    }
}

/// The notice that the tracer attached to a process.
pub open spec fn parse_attach(s: Seq<char>, i: int) -> Option<(Token, int)> {
    match parse_process(s, i, ": Process "@, " attached"@) {
        Some((pid, e)) => Some((Token::ProcessAttach(pid), e)),
        None => None,
    }
}

/// The notice that the tracer detached from a process.
pub open spec fn parse_detach(s: Seq<char>, i: int) -> Option<(Token, int)> {
    match parse_process(s, i, ": Process "@, " detached"@) {
        Some((pid, e)) => Some((Token::ProcessDetach(pid), e)),
        None => None,
    }
}

/// The result of a call, `= CODE`, and behind it, after one or more spaces, the
/// rest of the line as the tracer's remark on the result.
pub open spec fn parse_result(s: Seq<char>, i: int) -> Option<(int, Option<Seq<char>>, int)> {
    let a = skip_end(s, i);
    if at(s, a, '=') {
        match parse_signed(s, skip_end(s, a + 1), i32::MAX as int) {
            Some((code, j)) => {
                let k = run_end(s, j, CharClass::Space);
                if j < k < s.len() {
                    Some((code, Some(s.subrange(k, s.len() as int)), s.len() as int))
                } else {
                    Some((code, None, j))
                }
            },
            None => None,
        }
    } else {
        None
    }
}

/// A call that is a line's body: a call, and its result where one follows.
pub open spec fn parse_call_line(s: Seq<char>, i: int) -> Option<(Token, int)> {
    match parse_call_parts(s, i) {
        Some((name, args, j)) => match parse_result(s, j) {
            Some((code, info, k)) => Some((Token::Call { name, args, result: Some(code), info }, k)),
            None => Some((Token::Call { name, args, result: None, info: None }, j)),
        },
        None => None,
    }
}

/// The body of a line: the first that matches of the six notices, a call, a
/// hash, an array, a list and a bit set.
pub open spec fn parse_body(s: Seq<char>, i: int) -> Option<(Token, int)> {
    first_of(
        parse_signal(s, i),
        first_of(
            parse_exit(s, i),
            first_of(
                parse_kill(s, i),
                first_of(
                    parse_denied(s, i),
                    first_of(
                        parse_attach(s, i),
                        first_of(
                            parse_detach(s, i),
                            first_of(
                                parse_call_line(s, i),
                                first_of(
                                    parse_hash(s, i),
                                    first_of(
                                        parse_array(s, i),
                                        first_of(parse_list(s, i), parse_bit_set(s, i)),
                                    ),
                                ),
                            ),
                        ),
                    ),
                ),
            ),
        ),
    )
}

/// What stands before the body of a line: the process, where `[pid N]` begins
/// the line; the time in microseconds, where a timestamp follows; and the index
/// at which the body begins.
pub open spec fn parse_prefix(s: Seq<char>) -> (Option<int>, Option<int>, int) {
    let (pid, a) = match parse_pid_prefix(s, 0) {
        Some((pid, j)) => (Some(pid), j),
        None => (None, 0),
    };
    let (time, b) = match parse_time_prefix(s, a) {
        Some((micros, j)) => (Some(micros), j),
        None => (None, a),
    };
    (pid, time, b)
}

/// What a whole line decodes to: `None` where the line does not match the grammar
/// from its first character to its last.
pub open spec fn parse_line(s: Seq<char>) -> Option<Line> {
    let (pid, time, b) = parse_prefix(s);
    match parse_body(s, b) {
        Some((inner, j)) => if skip_end(s, j) == s.len() {
            Some(Line { pid, time, inner })
        } else {
            None
        },
        None => None,
    }
}

} // verus!
