//! Plain calls: the calls whose arguments are strings, names, numbers and
//! operators between them. A plain call that is written and decoded comes back
//! as it was.

use vstd::prelude::*;
use crate::chars::{at, has_lit, is_digit, is_hex, is_letter, is_word, run_end, word_at, CharClass};
use crate::grammar::{
    after_lit, comma_end, parse_attach, parse_body, parse_call, parse_call_line,
    parse_array, parse_bit_set, parse_call_parts, parse_denied, parse_detach, parse_entry,
    parse_expr, parse_hash, parse_ident, parse_item, parse_list,
    parse_line, parse_null, parse_number, parse_op, parse_operands, parse_process,
    parse_result, parse_signed, parse_string, parse_term, parse_value, parse_values, skip_end,
    string_close,
};
use crate::line::{outcome, render_line, Line};
use crate::number::{
    decimal_text, digit_char, digit_value, hex_text, lemma_number_text_value, number_text,
    word_bits,
};
use crate::roundtrip::{
    is_plain_notice, is_time, is_tracer_path, lemma_default_tracer_is_path,
    lemma_notice_line_comes_back,
    lemma_char_of_lit, lemma_decimal_reads_back_at, lemma_framed,
    lemma_framed_four, lemma_lit_of_three, lemma_name_reads_back_at, lemma_no_lit,
    lemma_not_a_marked_notice, lemma_prefix_reads_back, lemma_run_stops,
};
use crate::shape::{is_name, is_operator};
use crate::token::{default_tracer, join, render, render_each, render_result, Token};

verus! {

/// Whether a text can stand between quotes as it is: it holds neither a quote
/// nor a backslash.
pub open spec fn is_plain_text(text: Seq<char>) -> bool {
    forall|k: int| 0 <= k < text.len() ==> #[trigger] text[k] != '"' && text[k] != '\\'
}

/// Whether `op` is an operator that is written with signs: any but `or`.
pub open spec fn is_sign(op: Seq<char>) -> bool {
    is_operator(op) && op != "or"@
}

/// Whether a token is a plain operand: a name other than `NULL`, or a number.
pub open spec fn is_plain_operand(t: Token) -> bool {
    match t {
        Token::Ident(name) => is_name(name) && name != "NULL"@,
        Token::Number(n) => i64::MIN <= n <= i64::MAX,
        _ => false,
    }
}

/// Whether `items` are a plain expression: plain operands with operators of
/// signs between them.
pub open spec fn is_plain_expr(items: Seq<Token>) -> bool {
    &&& items.len() % 2 == 1
    &&& forall|k: int|
        0 <= k < items.len() ==> if k % 2 == 0 {
            is_plain_operand(#[trigger] items[k])
        } else {
            items[k] is Op && is_sign(items[k]->Op_0)
        }
}

/// Whether a token is a plain argument: `...`, a string of plain text, or a
/// plain expression.
pub open spec fn is_plain_arg(t: Token) -> bool {
    match t {
        Token::Truncated => true,
        Token::String(text) => is_plain_text(text),
        Token::Expr(items) => is_plain_expr(items),
        _ => false,
    }
}

/// Whether a token is a plain call: a call of plain arguments, with a remark
/// only behind a result, and no space at the beginning of the remark.
pub open spec fn is_plain_call(t: Token) -> bool {
    match t {
        Token::Call { name, args, result, info } => {
            &&& is_name(name)
            &&& forall|k: int| 0 <= k < args.len() ==> is_plain_arg(#[trigger] args[k])
            &&& result is Some ==> i32::MIN <= result.unwrap() <= i32::MAX
            &&& info is Some ==> result is Some && info.unwrap().len() > 0 && info.unwrap()[0]
                != ' '
        },
        _ => false,
    }
}

/// The parts from place `k` on, with `sep` between each two of them.
pub open spec fn joined_from(parts: Seq<Seq<char>>, sep: Seq<char>, k: int) -> Seq<char>
    decreases parts.len() - k,
{
    if k < 0 || k >= parts.len() {
        Seq::empty()
    } else if k == parts.len() - 1 {
        parts[k]
    } else {
        parts[k] + sep + joined_from(parts, sep, k + 1)
    }
}

/// Two or more parts, joined, are the first, the separator, and the others
/// joined.
pub(crate) proof fn lemma_join_first(parts: Seq<Seq<char>>, sep: Seq<char>)
    requires
        parts.len() >= 2,
    ensures
        join(parts, sep) == parts[0] + sep + join(parts.skip(1), sep),
    decreases parts.len(),
{
    let front = parts.drop_last();
    if parts.len() == 2 {
        assert(front.len() == 1);
        assert(parts.skip(1).len() == 1);
        assert(join(front, sep) == parts[0]);
        assert(join(parts.skip(1), sep) == parts[1]);
    } else {
        lemma_join_first(front, sep);
        assert(front.skip(1) =~= parts.skip(1).drop_last());
        assert(parts.skip(1).last() == parts.last());
        assert(join(parts, sep) =~= parts[0] + sep + join(parts.skip(1), sep));
    }
}

/// The parts from place `k` on, joined, are what [`joined_from`] gives.
pub(crate) proof fn lemma_join_from(parts: Seq<Seq<char>>, sep: Seq<char>, k: int)
    requires
        0 <= k <= parts.len(),
    ensures
        join(parts.skip(k), sep) == joined_from(parts, sep, k),
    decreases parts.len() - k,
{
    let rest = parts.skip(k);
    if k >= parts.len() {
    } else if k == parts.len() - 1 {
        assert(rest.len() == 1);
    } else {
        lemma_join_first(rest, sep);
        assert(rest.skip(1) =~= parts.skip(k + 1));
        lemma_join_from(parts, sep, k + 1);
    }
}

/// An operator of signs that stands in a text, before an operand, is read
/// there as itself.
pub(crate) proof fn lemma_sign_reads_back_at(s: Seq<char>, i: int, op: Seq<char>)
    requires
        0 <= i,
        is_sign(op),
        has_lit(s, i, op),
        i + op.len() < s.len(),
        is_word(s[i + op.len()]),
    ensures
        parse_op(s, i) == Some((op, i + op.len())),
        skip_end(s, i) == i,
{
    reveal_strlit("||");
    reveal_strlit("&&");
    reveal_strlit("<<");
    reveal_strlit(">>");
    reveal_strlit("==");
    reveal_strlit("!=");
    reveal_strlit("or");
    lemma_char_of_lit(s, i, op, 0);
    if op.len() == 1 {
        assert(s.subrange(i, i + 1) =~= op);
        lemma_no_lit(s, i, "||"@, 1);
        lemma_no_lit(s, i, "&&"@, 1);
        lemma_no_lit(s, i, "<<"@, 0);
        lemma_no_lit(s, i, ">>"@, 0);
        lemma_no_lit(s, i, "=="@, 0);
        lemma_no_lit(s, i, "!="@, 0);
    } else {
        assert(op.len() == 2);
        lemma_char_of_lit(s, i, op, 1);
        assert(s.subrange(i, i + 2) =~= op);
    }
}

/// A number in hexadecimal that stands in a text, with no letter, digit or `_`
/// behind it, is read there as itself.
pub(crate) proof fn lemma_hex_reads_back_at(s: Seq<char>, i: int, n: int)
    requires
        0 <= i,
        i64::MIN <= n <= i64::MAX,
        has_lit(s, i, hex_text(n)),
        i + hex_text(n).len() < s.len() ==> !is_word(s[i + hex_text(n).len()]),
    ensures
        parse_number(s, i) == Some((n, i + hex_text(n).len())),
        s[i] == '0',
{
    let text = hex_text(n);
    let digits = number_text(word_bits(n) as nat, 16);
    let j = i + text.len();
    lemma_number_text_value(word_bits(n) as nat, 16);
    lemma_char_of_lit(s, i, text, 0);
    lemma_char_of_lit(s, i, text, 1);
    assert forall|k: int| i + 2 <= k < j implies CharClass::Hex.contains(#[trigger] s[k]) by {
        lemma_char_of_lit(s, i, text, k - i);
        assert(text[k - i] == digits[k - i - 2]);
        assert(digits[k - i - 2] == digit_char(
            digit_value(digits[k - i - 2]),
        ));
    }
    lemma_run_stops(s, i + 2, j, CharClass::Hex);
    assert(s.subrange(i + 2, j) =~= digits) by {
        assert forall|k: int| 0 <= k < digits.len() implies s[i + 2 + k] == digits[k] by {
            lemma_char_of_lit(s, i, text, k + 2);
        }
    }
}

/// A plain operand that stands in a text, with no letter, digit, `_` or opening
/// parenthesis behind it, is read there as itself.
pub(crate) proof fn lemma_operand_reads_back_at(s: Seq<char>, i: int, t: Token, tracer: Seq<char>)
    requires
        0 <= i,
        is_plain_operand(t),
        has_lit(s, i, render(t, tracer)),
        i + render(t, tracer).len() < s.len(),
        !is_word(s[i + render(t, tracer).len()]),
        s[i + render(t, tracer).len()] != '(',
    ensures
        parse_term(s, i) == Some((t, i + render(t, tracer).len())),
        render(t, tracer).len() > 0,
        is_word(s[i]),
{
    match t {
        Token::Ident(name) => {
            lemma_name_reads_back_at(s, i, name);
            lemma_char_of_lit(s, i, name, 0);
            assert(run_end(s, i, CharClass::Digit) == i);
            assert(parse_number(s, i) is None);
            assert(parse_call_parts(s, i) is None);
        },
        Token::Number(n) => {
            lemma_hex_reads_back_at(s, i, n);
        },
        _ => {},
    }
}

/// The text of the items of an expression from place `k` on.
pub open spec fn items_from(items: Seq<Token>, tracer: Seq<char>, k: int) -> Seq<char> {
    joined_from(render_each(items, tracer), Seq::empty(), k)
}

/// The operators and operands of a plain expression from place `m` on, where
/// they stand in a text before a comma or a closing parenthesis, are read after
/// the items before them.
pub(crate) proof fn lemma_operands_read_back(
    s: Seq<char>,
    j: int,
    items: Seq<Token>,
    m: int,
    tracer: Seq<char>,
)
    requires
        0 <= j,
        is_plain_expr(items),
        0 < m <= items.len(),
        m % 2 == 1,
        has_lit(s, j, items_from(items, tracer, m)),
        j + items_from(items, tracer, m).len() < s.len(),
        s[j + items_from(items, tracer, m).len()] == ',' || s[j + items_from(
            items,
            tracer,
            m,
        ).len()] == ')',
    ensures
        parse_operands(s, j, items.take(m)) == (items, j + items_from(items, tracer, m).len()),
    decreases items.len() - m,
{
    let parts = render_each(items, tracer);
    let none = Seq::<char>::empty();
    if m == items.len() {
        assert(items.take(m) =~= items);
        reveal_strlit("||");
        reveal_strlit("&&");
        reveal_strlit("<<");
        reveal_strlit(">>");
        reveal_strlit("==");
        reveal_strlit("!=");
        reveal_strlit("or");
        lemma_no_lit(s, j, "||"@, 0);
        lemma_no_lit(s, j, "&&"@, 0);
        lemma_no_lit(s, j, "<<"@, 0);
        lemma_no_lit(s, j, ">>"@, 0);
        lemma_no_lit(s, j, "=="@, 0);
        lemma_no_lit(s, j, "!="@, 0);
        lemma_no_lit(s, j, "or"@, 0);
        assert(skip_end(s, j) == j);
        assert(parse_op(s, j) is None);
    } else {
        assert(m + 1 < items.len());
        let op = items[m]->Op_0;
        let t = items[m + 1];
        let text = items_from(items, tracer, m);
        let after = items_from(items, tracer, m + 2);
        assert(parts[m] == op);
        assert(parts[m + 1] == render(t, tracer));
        assert(text =~= op + render(t, tracer) + after) by {
            assert(joined_from(parts, none, m) == parts[m] + none + joined_from(parts, none, m + 1));
            if m + 2 < items.len() {
                assert(joined_from(parts, none, m + 1) == parts[m + 1] + none + joined_from(
                    parts,
                    none,
                    m + 2,
                ));
            } else {
                assert(joined_from(parts, none, m + 1) == parts[m + 1]);
                assert(after =~= none);
            }
        }
        lemma_lit_of_three(s, j, op, render(t, tracer), after);
        let b = j + op.len();
        let c = b + render(t, tracer).len();
        assert(c + after.len() == j + text.len());
        // what stands behind the operand is an operator, or what ends the expression
        assert(!is_word(s[c]) && s[c] != '(') by {
            if m + 2 < items.len() {
                let next = items[m + 2]->Op_0;
                assert(parts[m + 2] == next);
                assert(joined_from(parts, none, m + 2) == parts[m + 2] + none + joined_from(
                    parts,
                    none,
                    m + 3,
                ));
                lemma_sign_begins(next);
                assert(after[0] == next[0]);
                lemma_char_of_lit(s, c, after, 0);
            }
        }
        lemma_operand_has_text(t, tracer);
        lemma_char_of_lit(s, b, render(t, tracer), 0);
        lemma_operand_reads_back_at(s, b, t, tracer);
        lemma_sign_reads_back_at(s, j, op);
        assert(skip_end(s, b) == b);
        assert(items.take(m).push(Token::Op(op)).push(t) =~= items.take(m + 2));
        lemma_operands_read_back(s, c, items, m + 2, tracer);
    }
}

/// An operator of signs begins with a sign: with no letter, digit, `_` or
/// opening parenthesis.
pub(crate) proof fn lemma_sign_begins(op: Seq<char>)
    requires
        is_sign(op),
    ensures
        op.len() > 0,
        !is_word(op[0]),
        op[0] != '(',
        op[0] != ' ',
{
    reveal_strlit("||");
    reveal_strlit("&&");
    reveal_strlit("<<");
    reveal_strlit(">>");
    reveal_strlit("==");
    reveal_strlit("!=");
    reveal_strlit("or");
}

/// The text of a plain operand begins with a letter, a digit or `_`.
pub(crate) proof fn lemma_operand_has_text(t: Token, tracer: Seq<char>)
    requires
        is_plain_operand(t),
    ensures
        render(t, tracer).len() > 0,
        is_word(render(t, tracer)[0]),
{
    match t {
        Token::Number(n) => {
            lemma_number_text_value(word_bits(n) as nat, 16);
        },
        _ => {},
    }
}

/// The quote that closes a string is found behind characters that are neither
/// quotes nor backslashes.
pub(crate) proof fn lemma_string_close(s: Seq<char>, j: int, q: int)
    requires
        0 <= j <= q < s.len(),
        forall|k: int| j <= k < q ==> #[trigger] s[k] != '"' && s[k] != '\\',
        s[q] == '"',
    ensures
        string_close(s, j) == Some(q),
    decreases q - j,
{
    if j < q {
        lemma_string_close(s, j + 1, q);
    }
}

/// A string of plain text that stands in a text, before a comma or a closing
/// parenthesis, is read there as itself.
pub(crate) proof fn lemma_string_reads_back_at(s: Seq<char>, i: int, text: Seq<char>)
    requires
        0 <= i,
        is_plain_text(text),
        has_lit(s, i, "\""@ + text + "\""@),
        i + text.len() + 2 < s.len(),
        s[i + text.len() + 2] == ',' || s[i + text.len() + 2] == ')',
    ensures
        parse_string(s, i) == Some((Token::String(text), i + text.len() + 2)),
        s[i] == '"',
{
    reveal_strlit("\"");
    reveal_strlit("...");
    let quote = "\""@;
    lemma_lit_of_three(s, i, quote, text, quote);
    lemma_char_of_lit(s, i, quote, 0);
    let q = i + 1 + text.len();
    lemma_char_of_lit(s, q, quote, 0);
    assert forall|k: int| i + 1 <= k < q implies #[trigger] s[k] != '"' && s[k] != '\\' by {
        lemma_char_of_lit(s, i + 1, text, k - i - 1);
    }
    lemma_string_close(s, i + 1, q);
    lemma_no_lit(s, q + 1, "..."@, 0);
    assert(s.subrange(i + 1, q) =~= text);
}

/// A string that the tracer cut short, with dots behind its closing quote, is
/// read as the string alone: the dots are read and dropped.
pub proof fn lemma_cut_string_reads(s: Seq<char>, i: int, text: Seq<char>)
    requires
        0 <= i,
        is_plain_text(text),
        has_lit(s, i, "\""@ + text + "\"..."@),
    ensures
        parse_string(s, i) == Some((Token::String(text), i + text.len() + 5)),
{
    reveal_strlit("\"");
    reveal_strlit("\"...");
    reveal_strlit("...");
    let tail = "\"..."@;
    lemma_lit_of_three(s, i, "\""@, text, tail);
    lemma_char_of_lit(s, i, "\""@, 0);
    let q = i + 1 + text.len();
    lemma_char_of_lit(s, q, tail, 0);
    lemma_char_of_lit(s, q, tail, 1);
    lemma_char_of_lit(s, q, tail, 2);
    lemma_char_of_lit(s, q, tail, 3);
    assert forall|k: int| i + 1 <= k < q implies #[trigger] s[k] != '"' && s[k] != '\\' by {
        lemma_char_of_lit(s, i + 1, text, k - i - 1);
    }
    lemma_string_close(s, i + 1, q);
    assert(s.subrange(q + 1, q + 4) =~= "..."@);
    assert(s.subrange(i + 1, q) =~= text);
}

/// An entry of a hash with dots in place of its value is read as the key with a
/// value that the tracer left out.
pub proof fn lemma_truncated_entry_reads(s: Seq<char>, i: int, key: Seq<char>)
    requires
        0 <= i,
        is_name(key),
        has_lit(s, i, key + "=..."@),
    ensures
        parse_entry(s, i) == Some(((key, Token::Truncated), i + key.len() + 4)),
{
    reveal_strlit("=...");
    reveal_strlit("...");
    let tail = "=..."@;
    assert(key + tail =~= key + tail + Seq::<char>::empty());
    lemma_lit_of_three(s, i, key, tail, Seq::empty());
    let j = i + key.len();
    lemma_char_of_lit(s, j, tail, 0);
    lemma_char_of_lit(s, j, tail, 1);
    lemma_char_of_lit(s, j, tail, 2);
    lemma_char_of_lit(s, j, tail, 3);
    lemma_name_reads_back_at(s, i, key);
    assert(skip_end(s, j) == j);
    assert(skip_end(s, j + 1) == j + 1);
    assert(s.subrange(j + 1, j + 4) =~= "..."@);
}

/// No value stands where a text goes on with a closing parenthesis.
pub(crate) proof fn lemma_no_value_at_close(s: Seq<char>, i: int)
    requires
        0 <= i < s.len(),
        s[i] == ')',
    ensures
        parse_value(s, i) is None,
        skip_end(s, i) == i,
{
    reveal_strlit("...");
    reveal_strlit("NULL");
    lemma_no_lit(s, i, "..."@, 0);
    lemma_no_lit(s, i, "NULL"@, 0);
    assert(run_end(s, i, CharClass::Digit) == i);
    assert(parse_number(s, i) is None);
    assert(parse_ident(s, i) is None);
    assert(parse_term(s, i) is None);
}

/// A plain expression that stands in a text, before a comma or a closing
/// parenthesis, is read there as itself.
pub(crate) proof fn lemma_expr_reads_back_at(s: Seq<char>, p: int, items: Seq<Token>, tracer: Seq<char>)
    requires
        0 <= p,
        is_plain_expr(items),
        has_lit(s, p, render(Token::Expr(items), tracer)),
        p + render(Token::Expr(items), tracer).len() < s.len(),
        s[p + render(Token::Expr(items), tracer).len()] == ',' || s[p + render(
            Token::Expr(items),
            tracer,
        ).len()] == ')',
    ensures
        parse_expr(s, p) == Some(
            (Token::Expr(items), p + render(Token::Expr(items), tracer).len()),
        ),
        is_word(s[p]),
        parse_null(s, p) is None,
{
    let parts = render_each(items, tracer);
    let none = Seq::<char>::empty();
    let text = render(Token::Expr(items), tracer);
    let first = items[0];
    let after = items_from(items, tracer, 1);
    assert(parts.skip(0) =~= parts);
    lemma_join_from(parts, none, 0);
    assert(parts[0] == render(first, tracer));
    assert(text =~= render(first, tracer) + none + after) by {
        if items.len() > 1 {
            assert(joined_from(parts, none, 0) == parts[0] + none + joined_from(parts, none, 1));
        } else {
            assert(after =~= none);
        }
    }
    lemma_lit_of_three(s, p, render(first, tracer), none, after);
    let j = p + render(first, tracer).len();
    assert(j + after.len() == p + text.len());
    assert(!is_word(s[j]) && s[j] != '(') by {
        if items.len() > 1 {
            let next = items[1]->Op_0;
            assert(parts[1] == next);
            assert(joined_from(parts, none, 1) == parts[1] + none + joined_from(parts, none, 2));
            lemma_sign_begins(next);
            assert(after[0] == next[0]);
            lemma_char_of_lit(s, j, after, 0);
        }
    }
    lemma_operand_reads_back_at(s, p, first, tracer);
    assert(seq![first] =~= items.take(1));
    lemma_operands_read_back(s, j, items, 1, tracer);
    lemma_operand_is_not_null(s, p, first, tracer);
}

/// `NULL` is not read where a plain operand stands.
pub(crate) proof fn lemma_operand_is_not_null(s: Seq<char>, p: int, t: Token, tracer: Seq<char>)
    requires
        0 <= p,
        is_plain_operand(t),
        has_lit(s, p, render(t, tracer)),
        p + render(t, tracer).len() < s.len(),
        !is_word(s[p + render(t, tracer).len()]),
    ensures
        parse_null(s, p) is None,
{
    reveal_strlit("NULL");
    match t {
        Token::Ident(name) => {
            if has_lit(s, p, "NULL"@) && !word_at(s, p + 4) {
                lemma_char_of_lit(s, p, "NULL"@, 0);
                lemma_char_of_lit(s, p, "NULL"@, 1);
                lemma_char_of_lit(s, p, "NULL"@, 2);
                lemma_char_of_lit(s, p, "NULL"@, 3);
                if name.len() > 4 {
                    lemma_char_of_lit(s, p, name, 4);
                } else if name.len() < 4 {
                    assert(false);
                } else {
                    assert(name =~= "NULL"@) by {
                        assert forall|k: int| 0 <= k < 4 implies name[k] == "NULL"@[k] by {
                            lemma_char_of_lit(s, p, name, k);
                        }
                    }
                }
            }
        },
        Token::Number(n) => {
            lemma_number_text_value(word_bits(n) as nat, 16);
            lemma_char_of_lit(s, p, hex_text(n), 0);
            lemma_no_lit(s, p, "NULL"@, 0);
        },
        _ => {},
    }
}

/// A plain argument that stands in a text, before a comma or a closing
/// parenthesis, is read there as itself.
pub(crate) proof fn lemma_arg_reads_back_at(s: Seq<char>, p: int, t: Token, tracer: Seq<char>)
    requires
        0 <= p,
        is_plain_arg(t),
        has_lit(s, p, render(t, tracer)),
        p + render(t, tracer).len() < s.len(),
        s[p + render(t, tracer).len()] == ',' || s[p + render(t, tracer).len()] == ')',
    ensures
        parse_value(s, p) == Some((t, p + render(t, tracer).len())),
        render(t, tracer).len() > 0,
        s[p] == '.' || s[p] == '"' || is_word(s[p]),
{
    reveal_strlit("...");
    reveal_strlit("\"");
    match t {
        Token::Truncated => {
            assert(render(t, tracer) == "..."@);
            lemma_char_of_lit(s, p, "..."@, 0);
        },
        Token::String(text) => {
            assert(render(t, tracer) == "\""@ + text + "\""@);
            lemma_string_reads_back_at(s, p, text);
            lemma_no_lit(s, p, "..."@, 0);
        },
        Token::Expr(items) => {
            lemma_expr_reads_back_at(s, p, items, tracer);
            lemma_no_lit(s, p, "..."@, 0);
            assert(parse_string(s, p) is None);
        },
        _ => {},
    }
}

/// The text of the arguments from place `k` on, each behind a comma and a space.
pub open spec fn args_tail(parts: Seq<Seq<char>>, k: int) -> Seq<char>
    decreases parts.len() - k,
{
    if k < 0 || k >= parts.len() {
        Seq::empty()
    } else {
        ", "@ + parts[k] + args_tail(parts, k + 1)
    }
}

/// The arguments from place `k` on, joined, are the argument at `k` and behind
/// it the others, each behind a comma and a space.
pub(crate) proof fn lemma_joined_is_tail(parts: Seq<Seq<char>>, k: int)
    requires
        0 <= k < parts.len(),
    ensures
        joined_from(parts, ", "@, k) == parts[k] + args_tail(parts, k + 1),
    decreases parts.len() - k,
{
    if k == parts.len() - 1 {
        assert(parts[k] + args_tail(parts, k + 1) =~= parts[k]);
    } else {
        lemma_joined_is_tail(parts, k + 1);
        assert(parts[k] + ", "@ + (parts[k + 1] + args_tail(parts, k + 2)) =~= parts[k] + (", "@
            + parts[k + 1] + args_tail(parts, k + 2)));
    }
}

/// The plain arguments from place `k` on, where they stand in a text, each
/// behind a comma and a space, before a closing parenthesis, are read after the
/// arguments before them.
pub(crate) proof fn lemma_later_values_read_back(
    s: Seq<char>,
    i: int,
    args: Seq<Token>,
    k: int,
    tracer: Seq<char>,
)
    requires
        0 <= i,
        forall|m: int| 0 <= m < args.len() ==> is_plain_arg(#[trigger] args[m]),
        1 <= k <= args.len(),
        has_lit(s, i, args_tail(render_each(args, tracer), k)),
        i + args_tail(render_each(args, tracer), k).len() < s.len(),
        s[i + args_tail(render_each(args, tracer), k).len()] == ')',
    ensures
        parse_values(s, i, args.take(k)) == (
            args,
            i + args_tail(render_each(args, tracer), k).len(),
        ),
    decreases args.len() - k,
{
    let parts = render_each(args, tracer);
    reveal_strlit(", ");
    if k == args.len() {
        assert(args.take(k) =~= args);
        assert(skip_end(s, i) == i);
        assert(comma_end(s, i) is None);
    } else {
        let t = args[k];
        let after = args_tail(parts, k + 1);
        assert(parts[k] == render(t, tracer));
        lemma_lit_of_three(s, i, ", "@, render(t, tracer), after);
        lemma_char_of_lit(s, i, ", "@, 0);
        lemma_char_of_lit(s, i, ", "@, 1);
        let p = i + 2;
        let j = p + render(t, tracer).len();
        assert(s[j] == ',' || s[j] == ')') by {
            if k + 1 < args.len() {
                lemma_char_of_lit(s, j, after, 0);
            }
        }
        lemma_arg_reads_back_at(s, p, t, tracer);
        assert(skip_end(s, i) == i);
        assert(skip_end(s, p) == p);
        assert(skip_end(s, i + 1) == p);
        assert(comma_end(s, i) == Some(p));
        assert(args.take(k).push(t) =~= args.take(k + 1));
        lemma_later_values_read_back(s, j, args, k + 1, tracer);
    }
}

/// Plain arguments that stand in a text, with a comma and a space between each
/// two of them, before a closing parenthesis, are read there as themselves.
pub(crate) proof fn lemma_values_read_back(s: Seq<char>, i: int, args: Seq<Token>, tracer: Seq<char>)
    requires
        0 <= i,
        forall|m: int| 0 <= m < args.len() ==> is_plain_arg(#[trigger] args[m]),
        has_lit(s, i, join(render_each(args, tracer), ", "@)),
        i + join(render_each(args, tracer), ", "@).len() < s.len(),
        s[i + join(render_each(args, tracer), ", "@).len()] == ')',
    ensures
        parse_values(s, i, Seq::empty()) == (
            args,
            i + join(render_each(args, tracer), ", "@).len(),
        ),
        skip_end(s, i) == i,
{
    let parts = render_each(args, tracer);
    if args.len() == 0 {
        lemma_no_value_at_close(s, i);
        assert(args =~= Seq::<Token>::empty());
    } else {
        let t = args[0];
        let after = args_tail(parts, 1);
        assert(parts.skip(0) =~= parts);
        lemma_join_from(parts, ", "@, 0);
        lemma_joined_is_tail(parts, 0);
        assert(parts[0] == render(t, tracer));
        assert(render(t, tracer) + after =~= render(t, tracer) + after + Seq::<char>::empty());
        lemma_lit_of_three(s, i, render(t, tracer), after, Seq::empty());
        let j = i + render(t, tracer).len();
        assert(s[j] == ',' || s[j] == ')') by {
            reveal_strlit(", ");
            if 1 < args.len() {
                lemma_char_of_lit(s, j, after, 0);
            }
        }
        lemma_arg_reads_back_at(s, i, t, tracer);
        assert(Seq::<Token>::empty().push(t) =~= args.take(1));
        lemma_later_values_read_back(s, j, args, 1, tracer);
    }
}

/// The result of a plain call and the remark behind it, where they are all that
/// is left of a text, are read as themselves.
pub(crate) proof fn lemma_result_reads_back(
    s: Seq<char>,
    i: int,
    code: int,
    info: Option<Seq<char>>,
)
    requires
        0 <= i <= s.len(),
        i32::MIN <= code <= i32::MAX,
        info is Some ==> info.unwrap().len() > 0 && info.unwrap()[0] != ' ',
        s.subrange(i, s.len() as int) == render_result(Some(code), info),
    ensures
        parse_result(s, i) == Some((code, info, s.len() as int)),
{
    reveal_strlit(" = ");
    reveal_strlit(" ");
    let digits = decimal_text(code);
    let remark = match info {
        Some(text) => " "@ + text,
        None => Seq::<char>::empty(),
    };
    assert(render_result(Some(code), info) =~= " = "@ + digits + remark);
    lemma_framed(s, i, " = "@, digits, remark);
    lemma_char_of_lit(s, i, " = "@, 0);
    lemma_char_of_lit(s, i, " = "@, 1);
    lemma_char_of_lit(s, i, " = "@, 2);
    let d = i + 3;
    let j = d + digits.len();
    lemma_digits_begin(code);
    lemma_char_of_lit(s, d, digits, 0);
    assert(skip_end(s, d) == d);
    assert(skip_end(s, i + 2) == d);
    assert(skip_end(s, i + 1) == i + 1);
    assert(skip_end(s, i) == i + 1);
    match info {
        Some(text) => {
            lemma_char_of_lit(s, j, remark, 0);
            lemma_char_of_lit(s, j, remark, 1);
            lemma_decimal_reads_back_at(s, d, code, i32::MAX as int);
            lemma_run_stops(s, j, j + 1, CharClass::Space);
            assert(s.subrange(j + 1, s.len() as int) =~= text) by {
                assert forall|k: int| 0 <= k < text.len() implies s[j + 1 + k] == text[k] by {
                    lemma_char_of_lit(s, j, remark, k + 1);
                }
            }
        },
        None => {
            lemma_decimal_reads_back_at(s, d, code, i32::MAX as int);
            assert(run_end(s, j, CharClass::Space) == j);
        },
    }
}

/// A number in decimal begins with `-` or a digit.
pub(crate) proof fn lemma_digits_begin(n: int)
    ensures
        decimal_text(n).len() > 0,
        decimal_text(n)[0] == '-' || is_digit(decimal_text(n)[0]),
{
    if n >= 0 {
        lemma_number_text_value(n as nat, 10);
        let digits = number_text(n as nat, 10);
        assert(digits[0] == digit_char(digit_value(digits[0])));
    }
}

/// The name of a call, its plain arguments between parentheses, where they
/// stand in a text, are read there as themselves.
pub(crate) proof fn lemma_call_parts_read_back(
    s: Seq<char>,
    b: int,
    name: Seq<char>,
    args: Seq<Token>,
    tracer: Seq<char>,
)
    requires
        0 <= b,
        is_name(name),
        forall|m: int| 0 <= m < args.len() ==> is_plain_arg(#[trigger] args[m]),
        has_lit(s, b, name),
        b + name.len() < s.len(),
        s[b + name.len()] == '(',
        has_lit(s, b + name.len() + 1, join(render_each(args, tracer), ", "@)),
        b + name.len() + 1 + join(render_each(args, tracer), ", "@).len() < s.len(),
        s[b + name.len() + 1 + join(render_each(args, tracer), ", "@).len()] == ')',
    ensures
        parse_call_parts(s, b) == Some(
            (name, args, b + name.len() + 2 + join(render_each(args, tracer), ", "@).len()),
        ),
{
    let open = b + name.len();
    let close = open + 1 + join(render_each(args, tracer), ", "@).len();
    lemma_name_reads_back_at(s, b, name);
    lemma_values_read_back(s, open + 1, args, tracer);
    assert(skip_end(s, close) == close);
}

/// No notice of the tracer about a process stands where a name and an opening
/// parenthesis stand.
pub(crate) proof fn lemma_no_process_at_call(s: Seq<char>, b: int, name: Seq<char>)
    requires
        0 <= b,
        is_name(name),
        has_lit(s, b, name),
        b + name.len() < s.len(),
        s[b + name.len()] == '(',
    ensures
        parse_denied(s, b) is None,
        parse_attach(s, b) is None,
        parse_detach(s, b) is None,
{
    let open = b + name.len();
    assert forall|k: int| b <= k < open implies CharClass::Program.contains(#[trigger] s[k]) by {
        lemma_char_of_lit(s, b, name, k - b);
    }
    lemma_run_stops(s, b, open, CharClass::Program);
    reveal_strlit(": attach: ptrace(PTRACE_SEIZE, ");
    reveal_strlit(": Process ");
    lemma_no_lit(s, open, ": attach: ptrace(PTRACE_SEIZE, "@, 0);
    lemma_no_lit(s, open, ": Process "@, 0);
}

/// What stands behind the closing parenthesis of a plain call, where it is all
/// that is left of a text, is read as the result of the call, or as none.
pub(crate) proof fn lemma_call_end_reads_back(
    s: Seq<char>,
    i: int,
    result: Option<int>,
    info: Option<Seq<char>>,
)
    requires
        0 <= i <= s.len(),
        result is Some ==> i32::MIN <= result.unwrap() <= i32::MAX,
        info is Some ==> result is Some && info.unwrap().len() > 0 && info.unwrap()[0] != ' ',
        s.subrange(i, s.len() as int) == render_result(result, info),
    ensures
        match result {
            Some(code) => parse_result(s, i) == Some((code, info, s.len() as int)),
            None => parse_result(s, i) is None && i == s.len() && info is None,
        },
{
    match result {
        Some(code) => {
            lemma_result_reads_back(s, i, code, info);
        },
        None => {
            assert(render_result(result, info) =~= Seq::<char>::empty());
            assert(skip_end(s, i) == i);
        },
    }
}

/// A plain call, where it is all that is left of a text, is read as the body of
/// the line.
pub(crate) proof fn lemma_call_body(s: Seq<char>, b: int, t: Token, tracer: Seq<char>)
    requires
        0 <= b <= s.len(),
        is_plain_call(t),
        s.subrange(b, s.len() as int) == render(t, tracer),
    ensures
        parse_body(s, b) == Some((t, s.len() as int)),
        b < s.len(),
        is_letter(s[b]),
{
    let name = t->Call_name;
    let args = t->Call_args;
    let result = t->Call_result;
    let info = t->Call_info;
    let list = join(render_each(args, tracer), ", "@);
    let rest = render_result(result, info);
    let tail = ")"@ + rest;
    let open = b + name.len();
    let close = open + 1 + list.len();
    assert("("@.len() == 1 && "("@[0] == '(' && tail.len() == 1 + rest.len() && tail[0] == ')') by {
        reveal_strlit("(");
        reveal_strlit(")");
    }
    assert(render(t, tracer) =~= name + "("@ + list + tail);
    lemma_framed_four(s, b, name, "("@, list, tail);
    lemma_char_of_lit(s, b, name, 0);
    lemma_char_of_lit(s, open, "("@, 0);
    lemma_char_of_lit(s, close, tail, 0);
    assert(s.subrange(close + 1, s.len() as int) =~= rest) by {
        assert forall|k: int| 0 <= k < rest.len() implies s[close + 1 + k] == rest[k] by {
            lemma_char_of_lit(s, close, tail, k + 1);
            assert(tail[k + 1] == rest[k]);
        }
    }
    lemma_call_parts_read_back(s, b, name, args, tracer);
    lemma_call_end_reads_back(s, close + 1, result, info);
    lemma_not_a_marked_notice(s, b);
    lemma_no_process_at_call(s, b, name);
}

/// A line that is a plain call, written and decoded, is the line again: whatever
/// the name of the call, its plain arguments, its result and the remark behind
/// it, with or without a process before it, and with or without a time.
pub proof fn lemma_call_line_comes_back(line: Line, tracer: Seq<char>)
    requires
        is_plain_call(line.inner),
        line.pid is Some ==> 0 <= line.pid.unwrap() <= i32::MAX,
        line.time is Some ==> is_time(line.time.unwrap()),
    ensures
        parse_line(render_line(line, tracer)) == Some(line),
{
    let body = render(line.inner, tracer);
    let s = render_line(line, tracer);
    assert(body.subrange(0, body.len() as int) =~= body);
    lemma_call_body(body, 0, line.inner, tracer);
    lemma_prefix_reads_back(line, tracer);
    lemma_call_body(s, s.len() - body.len(), line.inner, tracer);
}

/// Whether a line is one that comes back: a plain call, or a plain notice
/// together with a path that the tracer's binary can have; before it, where it
/// has them, a process that is not negative and a time that fits its type.
pub open spec fn comes_back(line: Line, tracer: Seq<char>) -> bool {
    &&& is_plain_call(line.inner) || (is_plain_notice(line.inner) && is_tracer_path(tracer))
    &&& line.pid is Some ==> 0 <= line.pid.unwrap() <= i32::MAX
    &&& line.time is Some ==> is_time(line.time.unwrap())
}

/// Every line that comes back, written and decoded, is the line again.
pub proof fn lemma_round_trip(line: Line, tracer: Seq<char>)
    requires
        comes_back(line, tracer),
    ensures
        outcome(render_line(line, tracer)) == Ok::<Line, Seq<char>>(line),
{
    if is_plain_call(line.inner) {
        lemma_call_line_comes_back(line, tracer);
    } else {
        lemma_notice_line_comes_back(line, tracer);
    }
}

/// The written form of a line that comes back is a text that decoding and
/// writing leave as it is.
pub proof fn lemma_written_form_is_kept(line: Line, tracer: Seq<char>)
    requires
        comes_back(line, tracer),
    ensures
        parse_line(render_line(line, tracer)) is Some,
        render_line(parse_line(render_line(line, tracer)).unwrap(), tracer) == render_line(
            line,
            tracer,
        ),
{
    lemma_round_trip(line, tracer);
}

/// A line that is a plain call or a plain notice, written as
/// [`crate::line::StraceLine::serialize`] writes it and decoded, is the line
/// again, on every machine.
pub proof fn lemma_serialized_comes_back(line: Line)
    requires
        is_plain_call(line.inner) || is_plain_notice(line.inner),
        line.pid is Some ==> 0 <= line.pid.unwrap() <= i32::MAX,
        line.time is Some ==> is_time(line.time.unwrap()),
    ensures
        outcome(render_line(line, default_tracer())) == Ok::<Line, Seq<char>>(line),
{
    lemma_default_tracer_is_path();
    lemma_round_trip(line, default_tracer());
}

/// Whether `c` ends a value: whether it is a comma or closes a call, an array
/// or a hash.
pub open spec fn is_closer(c: char) -> bool {
    c == ',' || c == ')' || c == ']' || c == '}'
}

/// No operator stands where a text goes on with what ends a value.
pub(crate) proof fn lemma_no_operator_at_closer(s: Seq<char>, j: int, acc: Seq<Token>)
    requires
        0 <= j < s.len(),
        is_closer(s[j]),
    ensures
        parse_operands(s, j, acc) == (acc, j),
{
    reveal_strlit("||");
    reveal_strlit("&&");
    reveal_strlit("<<");
    reveal_strlit(">>");
    reveal_strlit("==");
    reveal_strlit("!=");
    reveal_strlit("or");
    lemma_no_lit(s, j, "||"@, 0);
    lemma_no_lit(s, j, "&&"@, 0);
    lemma_no_lit(s, j, "<<"@, 0);
    lemma_no_lit(s, j, ">>"@, 0);
    lemma_no_lit(s, j, "=="@, 0);
    lemma_no_lit(s, j, "!="@, 0);
    lemma_no_lit(s, j, "or"@, 0);
    assert(skip_end(s, j) == j);
    assert(parse_op(s, j) is None);
}

/// A call of plain arguments that stands in a text where a value stands, such
/// as behind the key of a hash, is read whole: as an expression of one item, the
/// call with its name and its arguments, without a result.
pub proof fn lemma_nested_call_reads(
    s: Seq<char>,
    p: int,
    name: Seq<char>,
    args: Seq<Token>,
    tracer: Seq<char>,
)
    requires
        0 <= p,
        is_name(name),
        name != "NULL"@,
        forall|m: int| 0 <= m < args.len() ==> is_plain_arg(#[trigger] args[m]),
        has_lit(
            s,
            p,
            render(Token::Call { name, args, result: None, info: None }, tracer),
        ),
        p + render(Token::Call { name, args, result: None, info: None }, tracer).len() < s.len(),
        is_closer(
            s[p + render(Token::Call { name, args, result: None, info: None }, tracer).len()],
        ),
    ensures
        parse_value(s, p) == Some(
            (
                Token::Expr(seq![Token::Call { name, args, result: None, info: None }]),
                p + render(Token::Call { name, args, result: None, info: None }, tracer).len(),
            ),
        ),
{
    let call = Token::Call { name, args, result: None, info: None };
    let list = join(render_each(args, tracer), ", "@);
    assert("("@.len() == 1 && "("@[0] == '(' && ")"@.len() == 1 && ")"@[0] == ')') by {
        reveal_strlit("(");
        reveal_strlit(")");
    }
    assert(render(call, tracer) =~= name + "("@ + list + ")"@) by {
        assert(render_result(None, None) =~= Seq::<char>::empty());
    }
    let text = render(call, tracer);
    let open = p + name.len();
    let close = open + 1 + list.len();
    assert(has_lit(s, p, name) && s[open] == '(' && has_lit(s, open + 1, list) && s[close] == ')')
        by {
        assert forall|k: int| 0 <= k < name.len() implies s[p + k] == name[k] by {
            lemma_char_of_lit(s, p, text, k);
        }
        assert(s.subrange(p, p + name.len()) =~= name);
        lemma_char_of_lit(s, p, text, name.len() as int);
        assert forall|k: int| 0 <= k < list.len() implies s[open + 1 + k] == list[k] by {
            lemma_char_of_lit(s, p, text, name.len() + 1 + k);
        }
        assert(s.subrange(open + 1, open + 1 + list.len()) =~= list);
        lemma_char_of_lit(s, p, text, (name.len() + 1 + list.len()) as int);
    }
    lemma_call_parts_read_back(s, p, name, args, tracer);
    lemma_char_of_lit(s, p, name, 0);
    lemma_no_operator_at_closer(s, close + 1, seq![call]);
    lemma_name_is_no_other_value(s, p, name);
    assert(close + 1 == p + text.len());
    assert(parse_call_parts(s, p) == Some((name, args, close + 1)));
    assert(parse_call(s, p) == Some((call, close + 1)));
    assert(parse_term(s, p) == Some((call, close + 1)));
    assert(parse_expr(s, p) == Some((Token::Expr(seq![call]), close + 1)));
    assert(parse_hash(s, p) is None);
    assert(parse_array(s, p) is None);
    assert(parse_list(s, p) is None);
    assert(parse_bit_set(s, p) is None);
    assert(parse_item(s, p) == Some((Token::Expr(seq![call]), close + 1)));
}

/// Where a name other than `NULL` stands before an opening parenthesis, no
/// number, no string, no `NULL`, no hash, no array, no list, no bit set and no
/// dots stand.
pub(crate) proof fn lemma_name_is_no_other_value(s: Seq<char>, p: int, name: Seq<char>)
    requires
        0 <= p,
        is_name(name),
        name != "NULL"@,
        has_lit(s, p, name),
        p + name.len() < s.len(),
        s[p + name.len()] == '(',
    ensures
        parse_number(s, p) is None,
        parse_string(s, p) is None,
        parse_null(s, p) is None,
        !has_lit(s, p, "..."@),
{
    reveal_strlit("...");
    lemma_char_of_lit(s, p, name, 0);
    lemma_no_lit(s, p, "..."@, 0);
    assert(run_end(s, p, CharClass::Digit) == p);
    lemma_operand_is_not_null(s, p, Token::Ident(name), Seq::empty());
}

} // verus!
