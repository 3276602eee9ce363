//! The shape of what the decoder gives: every token of a decoded line is whole,
//! each kind of token with the parts that the grammar gives it.

use vstd::prelude::*;
use crate::chars::{
    at, has_lit, is_letter, is_word, lemma_run_end, lemma_run_to_the_end, run_end, CharClass,
};
use crate::grammar::{
    after_lit, comma_end, parse_null, skip_end, spaces_end,
    parse_array, parse_attach, parse_bit_set, parse_bits, parse_body, parse_call,
    parse_call_line, parse_call_parts, parse_denied, parse_detach, parse_digits, parse_entries,
    parse_entry, parse_exit, parse_expr, parse_hash, parse_ident, parse_item, parse_items,
    parse_kill, parse_line, parse_list, parse_number, parse_op, parse_operands,
    parse_pid_prefix, parse_process, parse_result, parse_signal, parse_signed, parse_string,
    parse_term, parse_time_prefix, parse_timestamp, parse_value, parse_values, timestamp_value,
    without_dots,
};
use crate::line::Line;
use crate::number::{
    digit_char, digit_value,
    decimal_text, hex_text, word_bits, lemma_number_text_value, lemma_number_value_grows, number_text,
    number_value,
};
use crate::token::Token;

verus! {

/// Whether `text` is a name: a letter or `_`, then letters, digits and `_`.
pub open spec fn is_name(text: Seq<char>) -> bool {
    &&& text.len() > 0
    &&& is_letter(text[0])
    &&& forall|k: int| 0 <= k < text.len() ==> is_word(#[trigger] text[k])
}

/// Whether `op` is one of the operators of the grammar.
pub open spec fn is_operator(op: Seq<char>) -> bool {
    ||| op == "||"@
    ||| op == "&&"@
    ||| op == "<<"@
    ||| op == ">>"@
    ||| op == "=="@
    ||| op == "!="@
    ||| op == "or"@
    ||| (op.len() == 1 && (op[0] == '|' || op[0] == '&' || op[0] == '^' || op[0] == '*' || op[0]
        == '/' || op[0] == '+' || op[0] == '-'))
}

/// Whether `n` fits 32 bits with a sign.
pub open spec fn fits_i32(n: int) -> bool {
    i32::MIN <= n <= i32::MAX
}

/// Whether `t` can be an operand of an expression: a number, a name, or a call
/// without a result.
pub open spec fn is_operand(t: Token) -> bool {
    match t {
        Token::Number(_) => true,
        Token::Ident(_) => true,
        Token::Call { result, info, .. } => result is None && info is None,
        _ => false,
    }
}

/// Whether a token is whole: whether it, and every token in it, has the parts
/// that the grammar gives to a token of its kind.
pub open spec fn well_formed(t: Token) -> bool
    decreases t,
{
    match t {
        Token::Signal(name, details) => {
            &&& is_name(name)
            &&& details.len() <= 1
            &&& forall|k: int|
                0 <= k < details.len() ==> (#[trigger] details[k]) is Hash && well_formed(
                    details[k],
                )
        },
        Token::PermissionDenied(pid) => 0 <= pid <= i32::MAX,
        Token::ProcessAttach(pid) => 0 <= pid <= i32::MAX,
        Token::ProcessDetach(pid) => 0 <= pid <= i32::MAX,
        Token::Kill(name) => is_name(name),
        Token::Exit(code) => fits_i32(code),
        Token::Call { name, args, result, info } => {
            &&& is_name(name)
            &&& forall|k: int| 0 <= k < args.len() ==> well_formed(#[trigger] args[k])
            &&& result is Some ==> fits_i32(result.unwrap())
            &&& info is Some ==> result is Some && info.unwrap().len() > 0
        },
        Token::Expr(items) => {
            &&& items.len() % 2 == 1
            &&& forall|k: int|
                0 <= k < items.len() ==> well_formed(#[trigger] items[k]) && if k % 2 == 0 {
                    is_operand(items[k])
                } else {
                    items[k] is Op
                }
        },
        Token::Hash(entries) => forall|k: int|
            0 <= k < entries.len() ==> is_name((#[trigger] entries[k]).0) && well_formed(
                entries[k].1,
            ),
        Token::Array(items) => forall|k: int|
            0 <= k < items.len() ==> well_formed(#[trigger] items[k]),
        Token::List(items) => forall|k: int|
            0 <= k < items.len() ==> well_formed(#[trigger] items[k]),
        Token::BitSet(_, bits) => forall|k: int|
            0 <= k < bits.len() ==> (#[trigger] bits[k]) is Ident && well_formed(bits[k]),
        Token::String(_) => true,
        Token::Number(n) => i64::MIN <= n <= i64::MAX,
        Token::Ident(name) => is_name(name),
        Token::Op(op) => is_operator(op),
        Token::Truncated => true,
        Token::Null => true,
    }
}

/// Whether every token of `items` is whole.
pub open spec fn all_well_formed(items: Seq<Token>) -> bool {
    forall|k: int| 0 <= k < items.len() ==> well_formed(#[trigger] items[k])
}

/// Whether every entry of `entries` has a name for its key and a whole token for
/// its value.
pub open spec fn all_entries_well_formed(entries: Seq<(Seq<char>, Token)>) -> bool {
    forall|k: int|
        0 <= k < entries.len() ==> is_name((#[trigger] entries[k]).0) && well_formed(
            entries[k].1,
        )
}

/// Whether `items` is the beginning of an expression that ends with an operand.
pub open spec fn is_expression(items: Seq<Token>) -> bool {
    &&& items.len() % 2 == 1
    &&& forall|k: int|
        0 <= k < items.len() ==> well_formed(#[trigger] items[k]) && if k % 2 == 0 {
            is_operand(items[k])
        } else {
            items[k] is Op
        }
}

/// Whether a line is whole: its process and its time fit their types, and its
/// body is whole.
pub open spec fn line_well_formed(line: Line) -> bool {
    &&& line.pid is Some ==> 0 <= line.pid.unwrap() <= i32::MAX
    &&& line.time is Some ==> 0 <= line.time.unwrap() <= u64::MAX
    &&& well_formed(line.inner)
}

/// What the grammar reads as a name is a name.
pub(crate) proof fn lemma_ident_is_name(s: Seq<char>, i: int)
    requires
        parse_ident(s, i) is Some,
    ensures
        is_name(parse_ident(s, i).unwrap().0),
        i < parse_ident(s, i).unwrap().1 <= s.len(),
{
    lemma_run_end(s, i + 1, CharClass::Word);
}

/// What the grammar reads as an operator is an operator.
pub(crate) proof fn lemma_op_is_operator(s: Seq<char>, i: int)
    requires
        parse_op(s, i) is Some,
    ensures
        is_operator(parse_op(s, i).unwrap().0),
{
    reveal_strlit("or");
    reveal_strlit("||");
    reveal_strlit("&&");
    reveal_strlit("<<");
    reveal_strlit(">>");
    reveal_strlit("==");
    reveal_strlit("!=");
}

/// A run of digits that the grammar reads is worth 0 or more, and at most the
/// limit.
pub(crate) proof fn lemma_digits_in_range(s: Seq<char>, i: int, class: CharClass, base: int, limit: int)
    requires
        parse_digits(s, i, class, base, limit) is Some,
        base >= 1,
    ensures
        0 <= parse_digits(s, i, class, base, limit).unwrap().0 <= limit,
{
    lemma_run_end(s, i, class);
    let j = run_end(s, i, class);
    lemma_number_value_grows(s, i, j, j, base);
}

/// A signed number that the grammar reads is between `-limit - 1` and `limit`.
pub(crate) proof fn lemma_signed_in_range(s: Seq<char>, i: int, limit: int)
    requires
        parse_signed(s, i, limit) is Some,
        limit >= 0,
    ensures
        -limit - 1 <= parse_signed(s, i, limit).unwrap().0 <= limit,
{
    if at(s, i, '-') {
        lemma_digits_in_range(s, i + 1, CharClass::Digit, 10, limit + 1);
    } else {
        lemma_digits_in_range(s, i, CharClass::Digit, 10, limit);
    }
}

/// A number that the grammar reads fits 64 bits with a sign.
pub(crate) proof fn lemma_number_in_range(s: Seq<char>, i: int)
    requires
        parse_number(s, i) is Some,
    ensures
        i64::MIN <= parse_number(s, i).unwrap().0 <= i64::MAX,
{
    if at(s, i, '0') && at(s, i + 1, 'x') && run_end(
        s,
        i + 2,
        CharClass::Hex,
    ) > i + 2 {
        lemma_digits_in_range(s, i + 2, CharClass::Hex, 16, u64::MAX as int);
    } else if at(s, i, '0') && run_end(s, i + 1, CharClass::Octal) > i
        + 1 {
        lemma_digits_in_range(s, i + 1, CharClass::Octal, 8, i64::MAX as int);
    } else {
        lemma_signed_in_range(s, i, i64::MAX as int);
    }
}

/// The names that the grammar reads in a bit set are names.
pub(crate) proof fn lemma_bits_well_formed(s: Seq<char>, i: int, acc: Seq<Token>)
    requires
        forall|k: int| 0 <= k < acc.len() ==> (#[trigger] acc[k]) is Ident && well_formed(acc[k]),
    ensures
        forall|k: int|
            0 <= k < parse_bits(s, i, acc).0.len() ==> (#[trigger] parse_bits(s, i, acc).0[k])
                is Ident && well_formed(parse_bits(s, i, acc).0[k]),
    decreases s.len() - i,
{
    let a = skip_end(s, i);
    match parse_ident(s, a) {
        Some((name, j)) => {
            if i < j <= s.len() {
                lemma_ident_is_name(s, a);
                lemma_bits_well_formed(s, j, acc.push(Token::Ident(name)));
            }
        },
        None => {},
    }
}

/// What the grammar reads as a value is whole.
pub(crate) proof fn lemma_value_well_formed(s: Seq<char>, i: int)
    requires
        parse_value(s, i) is Some,
    ensures
        well_formed(parse_value(s, i).unwrap().0),
    decreases s.len() - i, 8int,
{
    if !has_lit(s, i, "..."@) {
        lemma_item_well_formed(s, i);
    }
}

/// What the grammar reads as an item is whole.
pub(crate) proof fn lemma_item_well_formed(s: Seq<char>, i: int)
    requires
        parse_item(s, i) is Some,
    ensures
        well_formed(parse_item(s, i).unwrap().0),
    decreases s.len() - i, 7int,
{
    if parse_string(s, i) is Some {
    } else if parse_null(s, i) is Some {
    } else if parse_hash(s, i) is Some {
        lemma_hash_well_formed(s, i);
    } else if parse_array(s, i) is Some {
        lemma_array_well_formed(s, i);
    } else if parse_list(s, i) is Some {
        lemma_list_well_formed(s, i);
    } else if parse_bit_set(s, i) is Some {
        lemma_bit_set_well_formed(s, i);
    } else {
        lemma_expr_well_formed(s, i);
    }
}

/// What the grammar reads as a bit set is whole.
pub(crate) proof fn lemma_bit_set_well_formed(s: Seq<char>, i: int)
    requires
        parse_bit_set(s, i) is Some,
    ensures
        well_formed(parse_bit_set(s, i).unwrap().0),
{
    let open = if at(s, i, '~') {
        i + 1
    } else {
        i
    };
    lemma_bits_well_formed(s, open + 1, Seq::empty());
}

/// The values that the grammar reads, after whole ones, are whole.
pub(crate) proof fn lemma_values_well_formed(s: Seq<char>, i: int, acc: Seq<Token>)
    requires
        all_well_formed(acc),
    ensures
        all_well_formed(parse_values(s, i, acc).0),
    decreases s.len() - i, 9int,
{
    let start = if acc.len() == 0 {
        Some(i)
    } else {
        comma_end(s, i)
    };
    match start {
        Some(p) => {
            if i <= p <= s.len() {
                match parse_value(s, p) {
                    Some((t, j)) => {
                        if p < j <= s.len() {
                            lemma_value_well_formed(s, p);
                            lemma_values_well_formed(s, j, acc.push(t));
                        }
                    },
                    None => {},
                }
            }
        },
        None => {},
    }
}

/// What the grammar reads as an array is whole.
pub(crate) proof fn lemma_array_well_formed(s: Seq<char>, i: int)
    requires
        parse_array(s, i) is Some,
    ensures
        well_formed(parse_array(s, i).unwrap().0),
    decreases s.len() - i, 6int,
{
    let a = skip_end(s, i + 1);
    lemma_values_well_formed(s, a, Seq::empty());
}

/// What the grammar reads as an entry of a hash has a name and a whole value.
pub(crate) proof fn lemma_entry_well_formed(s: Seq<char>, i: int)
    requires
        parse_entry(s, i) is Some,
    ensures
        is_name(parse_entry(s, i).unwrap().0.0),
        well_formed(parse_entry(s, i).unwrap().0.1),
    decreases s.len() - i, 1int,
{
    lemma_ident_is_name(s, i);
    let j = parse_ident(s, i).unwrap().1;
    let a = skip_end(s, j);
    let b = skip_end(s, a + 1);
    lemma_value_well_formed(s, b);
}

/// The entries that the grammar reads, after whole ones, are whole.
pub(crate) proof fn lemma_entries_well_formed(s: Seq<char>, i: int, acc: Seq<(Seq<char>, Token)>)
    requires
        all_entries_well_formed(acc),
    ensures
        all_entries_well_formed(parse_entries(s, i, acc).0),
    decreases s.len() - i, 9int,
{
    let start = if acc.len() == 0 {
        Some(i)
    } else {
        comma_end(s, i)
    };
    match start {
        Some(p) => {
            if i <= p <= s.len() {
                match parse_entry(s, p) {
                    Some((e, j)) => {
                        if p < j <= s.len() {
                            lemma_entry_well_formed(s, p);
                            lemma_entries_well_formed(s, j, acc.push(e));
                        }
                    },
                    None => {},
                }
            }
        },
        None => {},
    }
}

/// What the grammar reads as a hash is whole.
pub(crate) proof fn lemma_hash_well_formed(s: Seq<char>, i: int)
    requires
        parse_hash(s, i) is Some,
    ensures
        well_formed(parse_hash(s, i).unwrap().0),
        parse_hash(s, i).unwrap().0 is Hash,
    decreases s.len() - i, 6int,
{
    let a = skip_end(s, i + 1);
    lemma_entries_well_formed(s, a, Seq::empty());
}

/// The items that the grammar reads in a list, after whole ones, are whole.
pub(crate) proof fn lemma_items_well_formed(s: Seq<char>, i: int, acc: Seq<Token>)
    requires
        all_well_formed(acc),
    ensures
        all_well_formed(parse_items(s, i, acc).0),
    decreases s.len() - i, 9int,
{
    let p = skip_end(s, i);
    if i <= p <= s.len() {
        match parse_item(s, p) {
            Some((t, j)) => {
                if p < j <= s.len() {
                    lemma_item_well_formed(s, p);
                    lemma_items_well_formed(s, j, acc.push(t));
                }
            },
            None => {},
        }
    }
}

/// What the grammar reads as a list is whole.
pub(crate) proof fn lemma_list_well_formed(s: Seq<char>, i: int)
    requires
        parse_list(s, i) is Some,
    ensures
        well_formed(parse_list(s, i).unwrap().0),
    decreases s.len() - i, 6int,
{
    lemma_items_well_formed(s, i + 1, Seq::empty());
}

/// The name of a call that the grammar reads is a name, and its values are whole.
pub(crate) proof fn lemma_call_parts_well_formed(s: Seq<char>, i: int)
    requires
        parse_call_parts(s, i) is Some,
    ensures
        is_name(parse_call_parts(s, i).unwrap().0),
        all_well_formed(parse_call_parts(s, i).unwrap().1),
    decreases s.len() - i, 3int,
{
    lemma_ident_is_name(s, i);
    let j = parse_ident(s, i).unwrap().1;
    let a = skip_end(s, j + 1);
    lemma_values_well_formed(s, a, Seq::empty());
}

/// What the grammar reads as a call inside a line is whole, and an operand.
pub(crate) proof fn lemma_call_well_formed(s: Seq<char>, i: int)
    requires
        parse_call(s, i) is Some,
    ensures
        well_formed(parse_call(s, i).unwrap().0),
        is_operand(parse_call(s, i).unwrap().0),
    decreases s.len() - i, 4int,
{
    lemma_call_parts_well_formed(s, i);
}

/// What the grammar reads as an operand is whole, and an operand.
pub(crate) proof fn lemma_term_well_formed(s: Seq<char>, i: int)
    requires
        parse_term(s, i) is Some,
    ensures
        well_formed(parse_term(s, i).unwrap().0),
        is_operand(parse_term(s, i).unwrap().0),
    decreases s.len() - i, 5int,
{
    if parse_number(s, i) is Some {
        lemma_number_in_range(s, i);
    } else if parse_call(s, i) is Some {
        lemma_call_well_formed(s, i);
    } else {
        lemma_ident_is_name(s, i);
    }
}

/// The operators and operands that the grammar reads after the beginning of an
/// expression make an expression.
pub(crate) proof fn lemma_operands_well_formed(s: Seq<char>, i: int, acc: Seq<Token>)
    requires
        is_expression(acc),
    ensures
        is_expression(parse_operands(s, i, acc).0),
    decreases s.len() - i, 1int,
{
    let a = skip_end(s, i);
    match parse_op(s, a) {
        Some((op, b)) => {
            let c = skip_end(s, b);
            if i < c <= s.len() {
                match parse_term(s, c) {
                    Some((t, j)) => {
                        if c < j <= s.len() {
                            lemma_op_is_operator(s, a);
                            lemma_term_well_formed(s, c);
                            let next = acc.push(Token::Op(op)).push(t);
                            assert(is_expression(next)) by {
                                assert forall|k: int| 0 <= k < next.len() implies well_formed(
                                    #[trigger] next[k],
                                ) && if k % 2 == 0 {
                                    is_operand(next[k])
                                } else {
                                    next[k] is Op
                                } by {
                                    if k < acc.len() {
                                        assert(next[k] == acc[k]);
                                    }
                                }
                            }
                            lemma_operands_well_formed(s, j, next);
                        }
                    },
                    None => {},
                }
            }
        },
        None => {},
    }
}

/// What the grammar reads as an expression is whole.
pub(crate) proof fn lemma_expr_well_formed(s: Seq<char>, i: int)
    requires
        parse_expr(s, i) is Some,
    ensures
        well_formed(parse_expr(s, i).unwrap().0),
    decreases s.len() - i, 6int,
{
    lemma_term_well_formed(s, i);
    let (t, j) = parse_term(s, i).unwrap();
    lemma_operands_well_formed(s, j, seq![t]);
}

/// The process id in a notice of the tracer is 0 or more and fits 32 bits.
pub(crate) proof fn lemma_process_in_range(s: Seq<char>, i: int, before: Seq<char>, after: Seq<char>)
    requires
        parse_process(s, i, before, after) is Some,
    ensures
        0 <= parse_process(s, i, before, after).unwrap().0 <= i32::MAX,
{
    let a = after_lit(s, run_end(s, i, CharClass::Program), before).unwrap();
    lemma_digits_in_range(s, a, CharClass::Digit, 10, i32::MAX as int);
}

/// What the grammar reads as the body of a line is whole.
pub(crate) proof fn lemma_body_well_formed(s: Seq<char>, i: int)
    requires
        parse_body(s, i) is Some,
    ensures
        well_formed(parse_body(s, i).unwrap().0),
{
    if parse_signal(s, i) is Some {
        let a = after_lit(s, i, "--- "@).unwrap();
        lemma_ident_is_name(s, a);
        let j = parse_ident(s, a).unwrap().1;
        if after_lit(s, j, " ---"@) is Some {
        } else if after_lit(s, j, " ... ---"@) is Some {
        } else {
            lemma_hash_well_formed(s, j + 1);
        }
    } else if parse_exit(s, i) is Some {
        let a = after_lit(s, i, "+++ exited with "@).unwrap();
        lemma_signed_in_range(s, a, i32::MAX as int);
    } else if parse_kill(s, i) is Some {
        let a = after_lit(s, i, "+++ killed by "@).unwrap();
        lemma_ident_is_name(s, a);
    } else if parse_denied(s, i) is Some {
        lemma_process_in_range(
            s,
            i,
            ": attach: ptrace(PTRACE_SEIZE, "@,
            "): Operation not permitted"@,
        );
    } else if parse_attach(s, i) is Some {
        lemma_process_in_range(s, i, ": Process "@, " attached"@);
    } else if parse_detach(s, i) is Some {
        lemma_process_in_range(s, i, ": Process "@, " detached"@);
    } else if parse_call_line(s, i) is Some {
        lemma_call_parts_well_formed(s, i);
        let j = parse_call_parts(s, i).unwrap().2;
        if parse_result(s, j) is Some {
            let a = skip_end(s, j);
            lemma_signed_in_range(s, skip_end(s, a + 1), i32::MAX as int);
        }
    } else if parse_hash(s, i) is Some {
        lemma_hash_well_formed(s, i);
    } else if parse_array(s, i) is Some {
        lemma_array_well_formed(s, i);
    } else if parse_list(s, i) is Some {
        lemma_list_well_formed(s, i);
    } else {
        lemma_bit_set_well_formed(s, i);
    }
}

/// A timestamp that the grammar reads is worth 0 or more.
pub(crate) proof fn lemma_timestamp_in_range(s: Seq<char>, i: int)
    requires
        parse_timestamp(s, i) is Some,
    ensures
        0 <= parse_timestamp(s, i).unwrap().0 <= u64::MAX,
{
    let b = parse_timestamp(s, i).unwrap().1;
    let digits = without_dots(s.subrange(i, b));
    assert(digits.subrange(0, digits.len() as int) =~= digits);
    lemma_number_value_grows(digits, 0, digits.len() as int, digits.len() as int, 10);
    assert(timestamp_value(s.subrange(i, b)) == number_value(digits, 10));
}

/// Every line that is decoded is whole: its body and every token in it have the
/// parts that the grammar gives to tokens of their kinds, and its numbers fit
/// their types. No line decodes to a token that is only partly read.
pub proof fn lemma_decoded_line_is_well_formed(s: Seq<char>)
    requires
        parse_line(s) is Some,
    ensures
        line_well_formed(parse_line(s).unwrap()),
{
    let a = match parse_pid_prefix(s, 0) {
        Some((pid, j)) => {
            let start = after_lit(s, 0, "[pid"@).unwrap();
            let digits = spaces_end(s, start).unwrap();
            lemma_digits_in_range(s, digits, CharClass::Digit, 10, i32::MAX as int);
            j
        },
        None => 0,
    };
    let b = match parse_time_prefix(s, a) {
        Some((micros, j)) => {
            lemma_timestamp_in_range(s, a);
            j
        },
        None => a,
    };
    lemma_body_well_formed(s, b);
}

/// A number, written, is read back as itself: hexadecimal is the form in which
/// the decoder and the writer agree on every number.
pub proof fn lemma_written_number_reads_back(n: int)
    requires
        i64::MIN <= n <= i64::MAX,
    ensures
        parse_number(hex_text(n), 0) == Some((n, hex_text(n).len() as int)),
{
    let bits = word_bits(n);
    let digits = number_text(bits as nat, 16);
    let s = hex_text(n);
    lemma_number_text_value(bits as nat, 16);
    assert(s.len() == digits.len() + 2);
    assert forall|k: int| 2 <= k < s.len() implies CharClass::Hex.contains(#[trigger] s[k]) by {
        assert(s[k] == digits[k - 2]);
    }
    lemma_run_to_the_end(s, 2, CharClass::Hex);
    assert(s.subrange(2, s.len() as int) =~= digits);
}

/// A number, written in decimal, is read back as itself, where it is within the
/// limit of the place that it is read at.
pub proof fn lemma_written_decimal_reads_back(n: int, limit: int)
    requires
        -limit - 1 <= n <= limit,
    ensures
        parse_signed(decimal_text(n), 0, limit) == Some((n, decimal_text(n).len() as int)),
{
    let s = decimal_text(n);
    if n < 0 {
        let digits = number_text((-n) as nat, 10);
        lemma_number_text_value((-n) as nat, 10);
        assert forall|k: int| 1 <= k < s.len() implies CharClass::Digit.contains(
            #[trigger] s[k],
        ) by {
            assert(s[k] == digits[k - 1]);
        }
        lemma_run_to_the_end(s, 1, CharClass::Digit);
        assert(s.subrange(1, s.len() as int) =~= digits);
    } else {
        let digits = number_text(n as nat, 10);
        lemma_number_text_value(n as nat, 10);
        assert(s[0] == digits[0]);
        assert(s[0] == digit_char(digit_value(s[0])));
        assert forall|k: int| 0 <= k < s.len() implies CharClass::Digit.contains(
            #[trigger] s[k],
        ) by {
            assert(s[k] == digits[k]);
        }
        lemma_run_to_the_end(s, 0, CharClass::Digit);
        assert(s.subrange(0, s.len() as int) =~= digits);
    }
}

/// A number that is written in decimal is read as its value.
pub proof fn lemma_decimal_number_reads(n: int)
    requires
        i64::MIN <= n <= i64::MAX,
    ensures
        parse_number(decimal_text(n), 0) == Some((n, decimal_text(n).len() as int)),
{
    let s = decimal_text(n);
    lemma_written_decimal_reads_back(n, i64::MAX as int);
    if n >= 0 {
        let digits = number_text(n as nat, 10);
        lemma_number_text_value(n as nat, 10);
        if s[0] == '0' {
            // a number that begins with 0 is 0: no digit follows
            assert(digit_value(digits[0]) == 0);
            if n >= 10 {
                lemma_first_digit(n as nat);
            }
            assert(s.len() == 1);
            assert(run_end(s, 1, CharClass::Octal) == 1);
        }
    }
}

/// The first digit of a number of two or more digits in decimal is not 0.
pub(crate) proof fn lemma_first_digit(n: nat)
    requires
        n >= 10,
    ensures
        number_text(n, 10).len() >= 2,
        number_text(n, 10)[0] != '0',
    decreases n,
{
    lemma_number_text_value(n / 10, 10);
    if n / 10 >= 10 {
        lemma_first_digit(n / 10);
    } else {
        assert(number_text(n / 10, 10) =~= seq![digit_char((n / 10) as int)]);
    }
}

/// A number that is written in octal, after `0`, is read as its value.
pub proof fn lemma_octal_number_reads(n: int)
    requires
        0 <= n <= i64::MAX,
    ensures
        parse_number(seq!['0'] + number_text(n as nat, 8), 0) == Some(
            (n, 1 + number_text(n as nat, 8).len() as int),
        ),
{
    let digits = number_text(n as nat, 8);
    let s = seq!['0'] + digits;
    lemma_number_text_value(n as nat, 8);
    assert forall|k: int| 1 <= k < s.len() implies CharClass::Octal.contains(#[trigger] s[k]) by {
        assert(s[k] == digits[k - 1]);
        assert(digits[k - 1] == digit_char(digit_value(digits[k - 1])));
    }
    lemma_run_to_the_end(s, 1, CharClass::Octal);
    assert(s.subrange(1, s.len() as int) =~= digits);
    assert(s[1] == digits[0]);
}

} // verus!
