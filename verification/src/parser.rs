//! The decoder: for each rule of the grammar, a function that reads what the rule
//! describes.

use vstd::prelude::*;
use crate::chars::{is_at, is_letter_at, is_word_at, scan_run, starts_with_at, CharClass};
use crate::grammar::{
    after_lit, comma_end, comment_close, comment_end, dropped_tail_end, parse_array,
    parse_attach, parse_bit_set, parse_bits, parse_body, parse_call, parse_call_line,
    parse_call_parts, parse_denied, parse_detach, parse_digits, parse_entries, parse_entry,
    parse_exit, parse_expr, parse_hash, parse_ident, parse_item, parse_items, parse_kill,
    parse_line, parse_list, parse_null, parse_number, parse_op, parse_operands,
    parse_pid_prefix, parse_process, parse_result, parse_signal, parse_signed, parse_string,
    parse_term, parse_time_prefix, parse_timestamp, parse_value, parse_values, skip_end,
    spaces_end, string_close, timestamp_value, without_dots,
};
use crate::line::{StraceLine, Timestamp};
use crate::number::read_number;
use crate::text::chars_to_string;
use crate::token::{
    lemma_view_entries_push, lemma_view_tokens_push, view_entries, view_text, view_tokens,
    StraceToken, Token,
};

verus! {

/// Whether `r` is the token and the index that the grammar gives as `e`.
pub open spec fn is_token(r: Option<(StraceToken, usize)>, e: Option<(Token, int)>) -> bool {
    match r {
        Some((t, j)) => e == Some((t@, j as int)),
        None => e is None,
    }
}

/// Whether `r` is the text and the index that the grammar gives as `e`.
pub open spec fn is_text(r: Option<(String, usize)>, e: Option<(Seq<char>, int)>) -> bool {
    match r {
        Some((t, j)) => e == Some((t@, j as int)),
        None => e is None,
    }
}

/// Whether `r` is the number and the index that the grammar gives as `e`.
pub open spec fn is_number(r: Option<(i64, usize)>, e: Option<(int, int)>) -> bool {
    match r {
        Some((n, j)) => e == Some((n as int, j as int)),
        None => e is None,
    }
}

/// Whether `r` is the index that the grammar gives as `e`.
pub open spec fn is_index(r: Option<usize>, e: Option<int>) -> bool {
    match r {
        Some(j) => e == Some(j as int),
        None => e is None,
    }
}

/// Reads the literal `lit` at `i`.
pub fn expect(s: &[char], i: usize, lit: &str) -> (r: Option<usize>)
    requires
        i <= s.len(),
    ensures
        is_index(r, after_lit(s@, i as int, lit@)),
        r is Some ==> i <= r->0 <= s.len(),
{
    if starts_with_at(s, i, lit) {
        Some(i + lit.unicode_len())
    } else {
        None
    }
}

/// Reads a comment at `i`.
pub fn read_comment(s: &[char], i: usize) -> (r: Option<usize>)
    requires
        i <= s.len(),
    ensures
        is_index(r, comment_end(s@, i as int)),
        r is Some ==> i < r->0 <= s.len(),
{
    if !(is_at(s, i, '/') && is_at(s, i + 1, '*')) {
        return None;
    }
    let mut j: usize = i + 2;
    while s.len() - j >= 2
        invariant
            i + 2 <= j <= s.len(),
            comment_close(s@, j as int) == comment_end(s@, i as int),
        decreases s.len() - j,
    {
        if s[j] == '*' && s[j + 1] == '/' {
            return Some(j + 2);
        }
        j += 1;
    }
    None
}

/// Skips spaces and comments from `i`.
pub fn skip(s: &[char], i: usize) -> (j: usize)
    requires
        i <= s.len(),
    ensures
        j == skip_end(s@, i as int),
        i <= j <= s.len(),
{
    let mut j: usize = i;
    let mut more = true;
    while more
        invariant
            i <= j <= s.len(),
            skip_end(s@, j as int) == skip_end(s@, i as int),
            !more ==> skip_end(s@, j as int) == j,
        decreases s.len() - j, if more { 1int } else { 0int },
    {
        if is_at(s, j, ' ') {
            j += 1;
        } else {
            match read_comment(s, j) {
                Some(k) => {
                    j = k;
                },
                None => {
                    more = false;
                },
            }
        }
    }
    j
}

/// Reads a name at `i`.
pub fn read_ident(s: &[char], i: usize) -> (r: Option<(String, usize)>)
    requires
        i <= s.len(),
    ensures
        is_text(r, parse_ident(s@, i as int)),
        r is Some ==> i < r.unwrap().1 <= s.len(),
{
    if is_letter_at(s, i) {
        let j = scan_run(s, i + 1, CharClass::Word);
        Some((chars_to_string(s, i, j), j))
    } else {
        None
    }
}

/// Reads a run of digits of `class` at `i` as a number in `base`.
pub fn read_digits(s: &[char], i: usize, class: CharClass, base: u8, limit: u64) -> (r: Option<
    (u64, usize),
>)
    requires
        i <= s.len(),
        1 <= base <= 16,
    ensures
        match r {
            Some((n, j)) => parse_digits(s@, i as int, class, base as int, limit as int) == Some(
                (n as int, j as int),
            ) && i < j <= s.len() && n <= limit,
            None => parse_digits(s@, i as int, class, base as int, limit as int) is None,
        },
{
    let j = scan_run(s, i, class);
    if i < j {
        match read_number(s, i, j, base, limit) {
            Some(n) => Some((n, j)),
            None => None,
        }
    } else {
        None
    }
}

/// Reads a decimal number with an optional `-` at `i`.
pub fn read_signed(s: &[char], i: usize, limit: u64) -> (r: Option<(i64, usize)>)
    requires
        i <= s.len(),
        limit <= i64::MAX,
    ensures
        is_number(r, parse_signed(s@, i as int, limit as int)),
        r is Some ==> i < r.unwrap().1 <= s.len() && -limit - 1 <= r.unwrap().0 <= limit,
{
    if is_at(s, i, '-') {
        match read_digits(s, i + 1, CharClass::Digit, 10, limit + 1) {
            Some((n, j)) => {
                let v: i64 = if n > i64::MAX as u64 {
                    i64::MIN
                } else {
                    -(n as i64)
                };
                Some((v, j))
            },
            None => None,
        }
    } else {
        match read_digits(s, i, CharClass::Digit, 10, limit) {
            Some((n, j)) => Some((n as i64, j)),
            None => None,
        }
    }
}

/// Reads a number at `i`.
pub fn read_number_literal(s: &[char], i: usize) -> (r: Option<(i64, usize)>)
    requires
        i <= s.len(),
    ensures
        is_number(r, parse_number(s@, i as int)),
        r is Some ==> i < r.unwrap().1 <= s.len(),
{
    if is_at(s, i, '0') && is_at(s, i + 1, 'x') && scan_run(s, i + 2, CharClass::Hex) > i + 2 {
        match read_digits(s, i + 2, CharClass::Hex, 16, u64::MAX) {
            Some((bits, j)) => {
                let n: i64 = if bits > i64::MAX as u64 {
                    (bits - 0x8000_0000_0000_0000u64) as i64 + i64::MIN
                } else {
                    bits as i64
                };
                Some((n, j))
            },
            None => None,
        }
    } else if is_at(s, i, '0') && scan_run(s, i + 1, CharClass::Octal) > i + 1 {
        match read_digits(s, i + 1, CharClass::Octal, 8, i64::MAX as u64) {
            Some((n, j)) => Some((n as i64, j)),
            None => None,
        }
    } else {
        read_signed(s, i, i64::MAX as u64)
    }
}

/// Finds the quote that closes the string whose inside begins at `from`.
pub fn find_string_close(s: &[char], from: usize) -> (r: Option<usize>)
    requires
        from <= s.len(),
    ensures
        is_index(r, string_close(s@, from as int)),
        r is Some ==> from <= r->0 < s.len(),
{
    let mut j: usize = from;
    while j < s.len()
        invariant
            from <= j,
            string_close(s@, j as int) == string_close(s@, from as int),
        decreases s.len() - j,
    {
        if s[j] == '"' {
            return Some(j);
        } else if s[j] == '\\' {
            if s.len() - j >= 2 {
                j += 2;
            } else {
                return None;
            }
        } else {
            j += 1;
        }
    }
    None
}

/// Reads a quoted string at `i`.
pub fn read_string(s: &[char], i: usize) -> (r: Option<(StraceToken, usize)>)
    requires
        i <= s.len(),
    ensures
        is_token(r, parse_string(s@, i as int)),
        r is Some ==> i < r.unwrap().1 <= s.len(),
{
    if !is_at(s, i, '"') {
        return None;
    }
    match find_string_close(s, i + 1) {
        Some(q) => {
            let text = chars_to_string(s, i + 1, q);
            let after = if starts_with_at(s, q + 1, "...") {
                proof {
                    reveal_strlit("...");
                }
                q + 4
            } else {
                q + 1
            };
            Some((StraceToken::String(text), after))
        },
        None => None,
    }
}

/// Reads `NULL` at `i`.
pub fn read_null(s: &[char], i: usize) -> (r: Option<(StraceToken, usize)>)
    requires
        i <= s.len(),
    ensures
        is_token(r, parse_null(s@, i as int)),
        r is Some ==> i < r.unwrap().1 <= s.len(),
{
    if starts_with_at(s, i, "NULL") {
        proof {
            reveal_strlit("NULL");
        }
        if !is_word_at(s, i + 4) {
            return Some((StraceToken::Null, i + 4));
        }
    }
    None
}

/// Reads an operator at `i`.
pub fn read_op(s: &[char], i: usize) -> (r: Option<(String, usize)>)
    requires
        i <= s.len(),
    ensures
        is_text(r, parse_op(s@, i as int)),
        r is Some ==> i < r.unwrap().1 <= s.len(),
{
    proof {
        reveal_strlit("||");
        reveal_strlit("&&");
        reveal_strlit("<<");
        reveal_strlit(">>");
        reveal_strlit("==");
        reveal_strlit("!=");
        reveal_strlit("or");
    }
    if starts_with_at(s, i, "||") || starts_with_at(s, i, "&&") || starts_with_at(s, i, "<<")
        || starts_with_at(s, i, ">>") || starts_with_at(s, i, "==") || starts_with_at(
        s,
        i,
        "!=",
    ) {
        Some((chars_to_string(s, i, i + 2), i + 2))
    } else if is_at(s, i, '|') || is_at(s, i, '&') || is_at(s, i, '^') || is_at(s, i, '*')
        || is_at(s, i, '/') || is_at(s, i, '+') || is_at(s, i, '-') {
        Some((chars_to_string(s, i, i + 1), i + 1))
    } else if starts_with_at(s, i, "or") && !is_word_at(s, i + 2) {
        Some((chars_to_string(s, i, i + 2), i + 2))
    } else {
        None
    }
}

/// Reads `_ ',' _` at `i`.
pub fn read_comma(s: &[char], i: usize) -> (r: Option<usize>)
    requires
        i <= s.len(),
    ensures
        is_index(r, comma_end(s@, i as int)),
        r is Some ==> i < r->0 <= s.len(),
{
    let j = skip(s, i);
    if is_at(s, j, ',') {
        Some(skip(s, j + 1))
    } else {
        None
    }
}

/// Skips `_ ',' _ "..."` at `i`, where it stands there.
pub fn skip_dropped_tail(s: &[char], i: usize) -> (j: usize)
    requires
        i <= s.len(),
    ensures
        j == dropped_tail_end(s@, i as int),
        i <= j <= s.len(),
{
    match read_comma(s, i) {
        Some(j) => {
            if starts_with_at(s, j, "...") {
                proof {
                    reveal_strlit("...");
                }
                j + 3
            } else {
                i
            }
        },
        None => i,
    }
}

/// Reads a bit set at `i`.
pub fn read_bit_set(s: &[char], i: usize) -> (r: Option<(StraceToken, usize)>)
    requires
        i <= s.len(),
    ensures
        is_token(r, parse_bit_set(s@, i as int)),
        r is Some ==> i < r.unwrap().1 <= s.len(),
{
    let negated = is_at(s, i, '~');
    let open = if negated {
        i + 1
    } else {
        i
    };
    if !is_at(s, open, '[') {
        return None;
    }
    let mut bits: Vec<StraceToken> = Vec::new();
    let mut j: usize = open + 1;
    let mut more = true;
    assert(view_tokens(bits@) =~= Seq::<Token>::empty());
    while more
        invariant
            open < j <= s.len(),
            parse_bits(s@, j as int, view_tokens(bits@)) == parse_bits(
                s@,
                open + 1,
                Seq::<Token>::empty(),
            ),
            !more ==> parse_bits(s@, j as int, view_tokens(bits@)) == (view_tokens(bits@), j as int),
        decreases s.len() - j, if more { 1int } else { 0int },
    {
        match read_ident(s, skip(s, j)) {
            Some((name, k)) => {
                proof {
                    lemma_view_tokens_push(bits@, StraceToken::Ident(name));
                }
                bits.push(StraceToken::Ident(name));
                j = k;
            },
            None => {
                more = false;
            },
        }
    }
    let e = skip(s, j);
    if is_at(s, e, ']') {
        Some((StraceToken::BitSet(negated, bits), e + 1))
    } else {
        None
    }
}

/// Reads a value at `i`.
pub fn read_value(s: &[char], i: usize) -> (r: Option<(StraceToken, usize)>)
    requires
        i <= s.len(),
    ensures
        is_token(r, parse_value(s@, i as int)),
        r is Some ==> i < r.unwrap().1 <= s.len(),
    decreases s.len() - i, 8int,
{
    if starts_with_at(s, i, "...") {
        proof {
            reveal_strlit("...");
        }
        Some((StraceToken::Truncated, i + 3))
    } else {
        read_item(s, i)
    }
}

/// Reads an item at `i`.
pub fn read_item(s: &[char], i: usize) -> (r: Option<(StraceToken, usize)>)
    requires
        i <= s.len(),
    ensures
        is_token(r, parse_item(s@, i as int)),
        r is Some ==> i < r.unwrap().1 <= s.len(),
    decreases s.len() - i, 7int,
{
    let string = read_string(s, i);
    if string.is_some() {
        return string;
    }
    let null = read_null(s, i);
    if null.is_some() {
        return null;
    }
    let hash = read_hash(s, i);
    if hash.is_some() {
        return hash;
    }
    let array = read_array(s, i);
    if array.is_some() {
        return array;
    }
    let list = read_list(s, i);
    if list.is_some() {
        return list;
    }
    let bit_set = read_bit_set(s, i);
    if bit_set.is_some() {
        return bit_set;
    }
    read_expr(s, i)
}

/// Reads the values of a call or an array from `i`.
pub fn read_values(s: &[char], i: usize) -> (r: (Vec<StraceToken>, usize))
    requires
        i <= s.len(),
    ensures
        (view_tokens(r.0@), r.1 as int) == parse_values(s@, i as int, Seq::empty()),
        i <= r.1 <= s.len(),
    decreases s.len() - i, 9int,
{
    let mut items: Vec<StraceToken> = Vec::new();
    let mut j: usize = i;
    let mut more = true;
    assert(view_tokens(items@) =~= Seq::<Token>::empty());
    while more
        invariant
            i <= j <= s.len(),
            parse_values(s@, j as int, view_tokens(items@)) == parse_values(
                s@,
                i as int,
                Seq::empty(),
            ),
            !more ==> parse_values(s@, j as int, view_tokens(items@)) == (
                view_tokens(items@),
                j as int,
            ),
        decreases s.len() - j, if more { 1int } else { 0int },
    {
        let start = if items.len() == 0 {
            Some(j)
        } else {
            read_comma(s, j)
        };
        match start {
            Some(p) => match read_value(s, p) {
                Some((t, k)) => {
                    proof {
                        lemma_view_tokens_push(items@, t);
                    }
                    items.push(t);
                    j = k;
                },
                None => {
                    more = false;
                },
            },
            None => {
                more = false;
            },
        }
    }
    (items, j)
}

/// Reads an array at `i`.
pub fn read_array(s: &[char], i: usize) -> (r: Option<(StraceToken, usize)>)
    requires
        i <= s.len(),
    ensures
        is_token(r, parse_array(s@, i as int)),
        r is Some ==> i < r.unwrap().1 <= s.len(),
    decreases s.len() - i, 6int,
{
    if !is_at(s, i, '[') {
        return None;
    }
    let (items, j) = read_values(s, skip(s, i + 1));
    let e = skip(s, j);
    if is_at(s, e, ']') {
        Some((StraceToken::Array(items), e + 1))
    } else {
        None
    }
}

/// Reads one entry of a hash at `i`.
pub fn read_entry(s: &[char], i: usize) -> (r: Option<((String, StraceToken), usize)>)
    requires
        i <= s.len(),
    ensures
        match r {
            Some(((key, t), j)) => parse_entry(s@, i as int) == Some(((key@, t@), j as int)),
            None => parse_entry(s@, i as int) is None,
        },
        r is Some ==> i < r.unwrap().1 <= s.len(),
    decreases s.len() - i, 1int,
{
    match read_ident(s, i) {
        Some((key, j)) => {
            let a = skip(s, j);
            if !is_at(s, a, '=') {
                return None;
            }
            match read_value(s, skip(s, a + 1)) {
                Some((t, k)) => Some(((key, t), k)),
                None => None,
            }
        },
        None => None,
    }
}

/// Reads a hash at `i`.
pub fn read_hash(s: &[char], i: usize) -> (r: Option<(StraceToken, usize)>)
    requires
        i <= s.len(),
    ensures
        is_token(r, parse_hash(s@, i as int)),
        r is Some ==> i < r.unwrap().1 <= s.len(),
    decreases s.len() - i, 6int,
{
    if !is_at(s, i, '{') {
        return None;
    }
    let first = skip(s, i + 1);
    let mut entries: Vec<(String, StraceToken)> = Vec::new();
    let mut j: usize = first;
    let mut more = true;
    assert(view_entries(entries@) =~= Seq::<(Seq<char>, Token)>::empty());
    while more
        invariant
            i < first <= j <= s.len(),
            parse_entries(s@, j as int, view_entries(entries@)) == parse_entries(
                s@,
                first as int,
                Seq::empty(),
            ),
            !more ==> parse_entries(s@, j as int, view_entries(entries@)) == (
                view_entries(entries@),
                j as int,
            ),
        decreases s.len() - j, if more { 1int } else { 0int },
    {
        let start = if entries.len() == 0 {
            Some(j)
        } else {
            read_comma(s, j)
        };
        match start {
            Some(p) => match read_entry(s, p) {
                Some(((key, t), k)) => {
                    proof {
                        lemma_view_entries_push(entries@, key, t);
                    }
                    entries.push((key, t));
                    j = k;
                },
                None => {
                    more = false;
                },
            },
            None => {
                more = false;
            },
        }
    }
    let e = skip(s, skip_dropped_tail(s, j));
    if is_at(s, e, '}') {
        Some((StraceToken::Hash(entries), e + 1))
    } else {
        None
    }
}

/// Reads a list at `i`.
pub fn read_list(s: &[char], i: usize) -> (r: Option<(StraceToken, usize)>)
    requires
        i <= s.len(),
    ensures
        is_token(r, parse_list(s@, i as int)),
        r is Some ==> i < r.unwrap().1 <= s.len(),
    decreases s.len() - i, 6int,
{
    if !is_at(s, i, '{') {
        return None;
    }
    let mut items: Vec<StraceToken> = Vec::new();
    let mut j: usize = i + 1;
    let mut more = true;
    assert(view_tokens(items@) =~= Seq::<Token>::empty());
    while more
        invariant
            i < j <= s.len(),
            parse_items(s@, j as int, view_tokens(items@)) == parse_items(
                s@,
                i + 1,
                Seq::empty(),
            ),
            !more ==> parse_items(s@, j as int, view_tokens(items@)) == (
                view_tokens(items@),
                j as int,
            ),
        decreases s.len() - j, if more { 1int } else { 0int },
    {
        match read_item(s, skip(s, j)) {
            Some((t, k)) => {
                proof {
                    lemma_view_tokens_push(items@, t);
                }
                items.push(t);
                j = k;
            },
            None => {
                more = false;
            },
        }
    }
    let a = skip(s, j);
    let b = if starts_with_at(s, a, "...") {
        proof {
            reveal_strlit("...");
        }
        a + 3
    } else {
        j
    };
    let e = skip(s, b);
    if is_at(s, e, '}') {
        Some((StraceToken::List(items), e + 1))
    } else {
        None
    }
}

/// Reads the name and the values of a call at `i`.
pub fn read_call_parts(s: &[char], i: usize) -> (r: Option<(String, Vec<StraceToken>, usize)>)
    requires
        i <= s.len(),
    ensures
        match r {
            Some((name, args, j)) => parse_call_parts(s@, i as int) == Some(
                (name@, view_tokens(args@), j as int),
            ) && i < j <= s.len(),
            None => parse_call_parts(s@, i as int) is None,
        },
    decreases s.len() - i, 3int,
{
    match read_ident(s, i) {
        Some((name, j)) => {
            if !is_at(s, j, '(') {
                return None;
            }
            let (args, k) = read_values(s, skip(s, j + 1));
            let e = skip(s, k);
            if is_at(s, e, ')') {
                Some((name, args, e + 1))
            } else {
                None
            }
        },
        None => None,
    }
}

/// Reads a call without a result at `i`.
pub fn read_call(s: &[char], i: usize) -> (r: Option<(StraceToken, usize)>)
    requires
        i <= s.len(),
    ensures
        is_token(r, parse_call(s@, i as int)),
        r is Some ==> i < r.unwrap().1 <= s.len(),
    decreases s.len() - i, 4int,
{
    match read_call_parts(s, i) {
        Some((name, args, j)) => Some(
            (StraceToken::Call { name, args, result: None, info: None }, j),
        ),
        None => None,
    }
}

/// Reads an operand at `i`.
pub fn read_term(s: &[char], i: usize) -> (r: Option<(StraceToken, usize)>)
    requires
        i <= s.len(),
    ensures
        is_token(r, parse_term(s@, i as int)),
        r is Some ==> i < r.unwrap().1 <= s.len(),
    decreases s.len() - i, 5int,
{
    match read_number_literal(s, i) {
        Some((n, j)) => Some((StraceToken::Number(n), j)),
        None => {
            let call = read_call(s, i);
            if call.is_some() {
                return call;
            }
            match read_ident(s, i) {
                Some((name, j)) => Some((StraceToken::Ident(name), j)),
                None => None,
            }
        },
    }
}

/// Reads an expression at `i`.
pub fn read_expr(s: &[char], i: usize) -> (r: Option<(StraceToken, usize)>)
    requires
        i <= s.len(),
    ensures
        is_token(r, parse_expr(s@, i as int)),
        r is Some ==> i < r.unwrap().1 <= s.len(),
    decreases s.len() - i, 6int,
{
    match read_term(s, i) {
        Some((first, after)) => {
            let mut items: Vec<StraceToken> = Vec::new();
            proof {
                lemma_view_tokens_push(items@, first);
                assert(view_tokens(items@.push(first)) =~= seq![first@]);
            }
            items.push(first);
            let mut j: usize = after;
            let mut more = true;
            while more
                invariant
                    i < after <= j <= s.len(),
                    parse_operands(s@, j as int, view_tokens(items@)) == parse_operands(
                        s@,
                        after as int,
                        seq![first@],
                    ),
                    !more ==> parse_operands(s@, j as int, view_tokens(items@)) == (
                        view_tokens(items@),
                        j as int,
                    ),
                decreases s.len() - j, if more { 1int } else { 0int },
            {
                match read_op(s, skip(s, j)) {
                    Some((op, b)) => match read_term(s, skip(s, b)) {
                        Some((t, k)) => {
                            proof {
                                lemma_view_tokens_push(items@, StraceToken::Op(op));
                                lemma_view_tokens_push(items@.push(StraceToken::Op(op)), t);
                            }
                            items.push(StraceToken::Op(op));
                            items.push(t);
                            j = k;
                        },
                        None => {
                            more = false;
                        },
                    },
                    None => {
                        more = false;
                    },
                }
            }
            Some((StraceToken::Expr(items), j))
        },
        None => None,
    }
}

/// Reads one or more spaces at `i`.
pub fn read_spaces(s: &[char], i: usize) -> (r: Option<usize>)
    requires
        i <= s.len(),
    ensures
        is_index(r, spaces_end(s@, i as int)),
        r is Some ==> i < r.unwrap() <= s.len(),
{
    let j = scan_run(s, i, CharClass::Space);
    if i < j {
        Some(j)
    } else {
        None
    }
}

/// The characters `s[from..to]` without the dots among them.
pub fn strip_dots(s: &[char], from: usize, to: usize) -> (r: Vec<char>)
    requires
        from <= to <= s.len(),
    ensures
        r@ == without_dots(s@.subrange(from as int, to as int)),
{
    let mut out: Vec<char> = Vec::new();
    let mut k: usize = from;
    assert(s@.subrange(from as int, from as int) =~= Seq::<char>::empty());
    while k < to
        invariant
            from <= k <= to <= s.len(),
            out@ == without_dots(s@.subrange(from as int, k as int)),
        decreases to - k,
    {
        assert(s@.subrange(from as int, k + 1).drop_last() =~= s@.subrange(
            from as int,
            k as int,
        ));
        if s[k] != '.' {
            out.push(s[k]);
        }
        k += 1;
    }
    out
}

/// Reads `s[from..to]` as a timestamp; `None` where it is worth more than
/// `u64::MAX` microseconds.
pub fn read_timestamp_value(s: &[char], from: usize, to: usize) -> (r: Option<u64>)
    requires
        from <= to <= s.len(),
    ensures
        0 <= timestamp_value(s@.subrange(from as int, to as int)),
        r == if timestamp_value(s@.subrange(from as int, to as int)) <= u64::MAX {
            Some(timestamp_value(s@.subrange(from as int, to as int)) as u64)
        } else {
            None
        },
{
    let digits = strip_dots(s, from, to);
    assert(digits@.subrange(0, digits@.len() as int) =~= digits@);
    read_number(digits.as_slice(), 0, digits.len(), 10, u64::MAX)
}

/// Reads a timestamp at `i`.
pub fn read_timestamp(s: &[char], i: usize) -> (r: Option<(u64, usize)>)
    requires
        i <= s.len(),
    ensures
        match r {
            Some((micros, j)) => parse_timestamp(s@, i as int) == Some((micros as int, j as int))
                && i < j <= s.len(),
            None => parse_timestamp(s@, i as int) is None,
        },
{
    let a = scan_run(s, i, CharClass::Digit);
    if !(i < a && is_at(s, a, '.')) {
        return None;
    }
    let b = scan_run(s, a + 1, CharClass::Digit);
    if !(a + 1 < b) {
        return None;
    }
    match read_timestamp_value(s, i, b) {
        Some(micros) => Some((micros, b)),
        None => None,
    }
}

/// Reads `[pid N]` and the spaces behind it at `i`.
pub fn read_pid_prefix(s: &[char], i: usize) -> (r: Option<(i32, usize)>)
    requires
        i <= s.len(),
    ensures
        match r {
            Some((pid, j)) => parse_pid_prefix(s@, i as int) == Some((pid as int, j as int)) && i
                < j <= s.len(),
            None => parse_pid_prefix(s@, i as int) is None,
        },
{
    let a = match expect(s, i, "[pid") {
        Some(a) => a,
        None => { return None; },
    };
    let b = match read_spaces(s, a) {
        Some(b) => b,
        None => { return None; },
    };
    match read_digits(s, b, CharClass::Digit, 10, i32::MAX as u64) {
        Some((pid, j)) => {
            if !is_at(s, j, ']') {
                return None;
            }
            match read_spaces(s, j + 1) {
                Some(e) => Some((pid as i32, e)),
                None => None,
            }
        },
        None => None,
    }
}

/// Reads a timestamp and the spaces behind it at `i`.
pub fn read_time_prefix(s: &[char], i: usize) -> (r: Option<(Timestamp, usize)>)
    requires
        i <= s.len(),
    ensures
        match r {
            Some((time, j)) => parse_time_prefix(s@, i as int) == Some(
                (time.micros as int, j as int),
            ) && i < j <= s.len(),
            None => parse_time_prefix(s@, i as int) is None,
        },
{
    match read_timestamp(s, i) {
        Some((micros, j)) => match read_spaces(s, j) {
            Some(e) => Some((Timestamp::from_micros(micros), e)),
            None => None,
        },
        None => None,
    }
}

/// Reads the notice of a signal at `i`.
pub fn read_signal(s: &[char], i: usize) -> (r: Option<(StraceToken, usize)>)
    requires
        i <= s.len(),
    ensures
        is_token(r, parse_signal(s@, i as int)),
        r is Some ==> i <= r.unwrap().1 <= s.len(),
{
    let a = match expect(s, i, "--- ") {
        Some(a) => a,
        None => { return None; },
    };
    let (name, j) = match read_ident(s, a) {
        Some(found) => found,
        None => { return None; },
    };
    let mut details: Vec<StraceToken> = Vec::new();
    assert(view_tokens(details@) =~= Seq::<Token>::empty());
    match expect(s, j, " ---") {
        Some(e) => { return Some((StraceToken::Signal(name, details), e)); },
        None => {},
    }
    match expect(s, j, " ... ---") {
        Some(e) => { return Some((StraceToken::Signal(name, details), e)); },
        None => {},
    }
    if !is_at(s, j, ' ') {
        return None;
    }
    match read_hash(s, j + 1) {
        Some((detail, k)) => match expect(s, k, " ---") {
            Some(e) => {
                proof {
                    lemma_view_tokens_push(details@, detail);
                    assert(view_tokens(details@.push(detail)) =~= seq![detail@]);
                }
                details.push(detail);
                Some((StraceToken::Signal(name, details), e))
            },
            None => None,
        },
        None => None,
    }
}

/// Reads the notice of an exit at `i`.
pub fn read_exit(s: &[char], i: usize) -> (r: Option<(StraceToken, usize)>)
    requires
        i <= s.len(),
    ensures
        is_token(r, parse_exit(s@, i as int)),
        r is Some ==> i <= r.unwrap().1 <= s.len(),
{
    let a = match expect(s, i, "+++ exited with ") {
        Some(a) => a,
        None => { return None; },
    };
    match read_signed(s, a, i32::MAX as u64) {
        Some((code, j)) => match expect(s, j, " +++") {
            Some(e) => Some((StraceToken::Exit(code as i32), e)),
            None => None,
        },
        None => None,
    }
}

/// Reads the notice of a kill at `i`.
pub fn read_kill(s: &[char], i: usize) -> (r: Option<(StraceToken, usize)>)
    requires
        i <= s.len(),
    ensures
        is_token(r, parse_kill(s@, i as int)),
        r is Some ==> i <= r.unwrap().1 <= s.len(),
{
    let a = match expect(s, i, "+++ killed by ") {
        Some(a) => a,
        None => { return None; },
    };
    match read_ident(s, a) {
        Some((name, j)) => match expect(s, j, " +++") {
            Some(e) => Some((StraceToken::Kill(name), e)),
            None => None,
        },
        None => None,
    }
}

/// Reads the tracer's name, `before`, a process id and `after` at `i`.
pub fn read_process(s: &[char], i: usize, before: &str, after: &str) -> (r: Option<(i32, usize)>)
    requires
        i <= s.len(),
    ensures
        match r {
            Some((pid, j)) => parse_process(s@, i as int, before@, after@) == Some(
                (pid as int, j as int),
            ) && i < j <= s.len(),
            None => parse_process(s@, i as int, before@, after@) is None,
        },
{
    let p = scan_run(s, i, CharClass::Program);
    let a = match expect(s, p, before) {
        Some(a) => a,
        None => { return None; },
    };
    match read_digits(s, a, CharClass::Digit, 10, i32::MAX as u64) {
        Some((pid, j)) => match expect(s, j, after) {
            Some(e) => if i < p {
                Some((pid as i32, e))
            } else {
                None
            },
            None => None,
        },
        None => None,
    }
}

/// Reads, at `i`, the notice that the tracer may not attach.
pub fn read_denied(s: &[char], i: usize) -> (r: Option<(StraceToken, usize)>)
    requires
        i <= s.len(),
    ensures
        is_token(r, parse_denied(s@, i as int)),
        r is Some ==> i < r.unwrap().1 <= s.len(),
{
    match read_process(s, i, ": attach: ptrace(PTRACE_SEIZE, ", "): Operation not permitted") {
        Some((pid, e)) => Some((StraceToken::PermissionDenied(pid), e)),
        None => None,
    }
}

/// Reads, at `i`, the notice that the tracer attached.
pub fn read_attach(s: &[char], i: usize) -> (r: Option<(StraceToken, usize)>)
    requires
        i <= s.len(),
    ensures
        is_token(r, parse_attach(s@, i as int)),
        r is Some ==> i < r.unwrap().1 <= s.len(),
{
    match read_process(s, i, ": Process ", " attached") {
        Some((pid, e)) => Some((StraceToken::ProcessAttach(pid), e)),
        None => None,
    }
}

/// Reads, at `i`, the notice that the tracer detached.
pub fn read_detach(s: &[char], i: usize) -> (r: Option<(StraceToken, usize)>)
    requires
        i <= s.len(),
    ensures
        is_token(r, parse_detach(s@, i as int)),
        r is Some ==> i < r.unwrap().1 <= s.len(),
{
    match read_process(s, i, ": Process ", " detached") {
        Some((pid, e)) => Some((StraceToken::ProcessDetach(pid), e)),
        None => None,
    }
}

/// Reads the result of a call at `i`.
pub fn read_result(s: &[char], i: usize) -> (r: Option<(i32, Option<String>, usize)>)
    requires
        i <= s.len(),
    ensures
        match r {
            Some((code, info, j)) => parse_result(s@, i as int) == Some(
                (code as int, view_text(info), j as int),
            ) && i < j <= s.len(),
            None => parse_result(s@, i as int) is None,
        },
{
    let a = skip(s, i);
    if !is_at(s, a, '=') {
        return None;
    }
    match read_signed(s, skip(s, a + 1), i32::MAX as u64) {
        Some((code, j)) => {
            let k = scan_run(s, j, CharClass::Space);
            if j < k && k < s.len() {
                Some((code as i32, Some(chars_to_string(s, k, s.len())), s.len()))
            } else {
                Some((code as i32, None, j))
            }
        },
        None => None,
    }
}

/// Reads a call and, where one follows, its result at `i`.
pub fn read_call_line(s: &[char], i: usize) -> (r: Option<(StraceToken, usize)>)
    requires
        i <= s.len(),
    ensures
        is_token(r, parse_call_line(s@, i as int)),
        r is Some ==> i < r.unwrap().1 <= s.len(),
{
    match read_call_parts(s, i) {
        Some((name, args, j)) => match read_result(s, j) {
            Some((code, info, k)) => Some(
                (StraceToken::Call { name, args, result: Some(code), info }, k),
            ),
            None => Some((StraceToken::Call { name, args, result: None, info: None }, j)),
        },
        None => None,
    }
}

/// Reads the body of a line at `i`.
pub fn read_body(s: &[char], i: usize) -> (r: Option<(StraceToken, usize)>)
    requires
        i <= s.len(),
    ensures
        is_token(r, parse_body(s@, i as int)),
        r is Some ==> i <= r.unwrap().1 <= s.len(),
{
    let signal = read_signal(s, i);
    if signal.is_some() {
        return signal;
    }
    let exit = read_exit(s, i);
    if exit.is_some() {
        return exit;
    }
    let kill = read_kill(s, i);
    if kill.is_some() {
        return kill;
    }
    let denied = read_denied(s, i);
    if denied.is_some() {
        return denied;
    }
    let attach = read_attach(s, i);
    if attach.is_some() {
        return attach;
    }
    let detach = read_detach(s, i);
    if detach.is_some() {
        return detach;
    }
    let call = read_call_line(s, i);
    if call.is_some() {
        return call;
    }
    let hash = read_hash(s, i);
    if hash.is_some() {
        return hash;
    }
    let array = read_array(s, i);
    if array.is_some() {
        return array;
    }
    let list = read_list(s, i);
    if list.is_some() {
        return list;
    }
    read_bit_set(s, i)
}

/// Decodes the characters of one line.
pub fn read_line(s: &[char]) -> (r: Option<StraceLine>)
    ensures
        match r {
            Some(line) => parse_line(s@) == Some(line@),
            None => parse_line(s@) is None,
        },
{
    let (pid, a) = match read_pid_prefix(s, 0) {
        Some((pid, j)) => (Some(pid), j),
        None => (None, 0),
    };
    let (time, b) = match read_time_prefix(s, a) {
        Some((time, j)) => (Some(time), j),
        None => (None, a),
    };
    match read_body(s, b) {
        Some((inner, j)) => if skip(s, j) == s.len() {
            Some(StraceLine { pid, time, inner })
        } else {
            None
        },
        None => None,
    }
}

} // verus!
