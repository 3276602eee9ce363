//! Notices that are written and decoded again come back as they were.
//!
//! What the tracer says of the traced process itself (that it exited, that it was
//! killed, that a signal came, that the tracer attached to it, was refused, or
//! let it go) is written in one form only, so the writer and the decoder are
//! inverse to each other on these lines, with or without a process or a time
//! before them.

use vstd::prelude::*;
use crate::chars::{has_lit, is_digit, is_word, run_end, CharClass};
use crate::grammar::{
    after_lit, parse_attach, parse_body, parse_denied, parse_detach, parse_digits, parse_exit,
    parse_ident, parse_kill, parse_line, parse_pid_prefix, parse_prefix, parse_process,
    parse_signal,
    parse_signed, parse_time_prefix, parse_timestamp, skip_end, spaces_end, timestamp_value,
    without_dots,
};
use crate::line::{render_line, Line};
use crate::number::{
    decimal_text, digit_char, digit_value, fixed_text, lemma_fixed_text,
    lemma_number_text_value, lemma_six_fixed_digits, number_text, number_value,
};
use crate::shape::{fits_i32, is_name};
use crate::token::{default_tracer, render, Token};

verus! {

/// Whether a token is one of the notices that are written in one form only: the
/// five notices about the process, and a signal without details.
pub open spec fn is_plain_notice(t: Token) -> bool {
    match t {
        Token::Exit(code) => fits_i32(code),
        Token::Kill(name) => is_name(name),
        Token::ProcessDetach(pid) => 0 <= pid <= i32::MAX,
        Token::ProcessAttach(pid) => 0 <= pid <= i32::MAX,
        Token::PermissionDenied(pid) => 0 <= pid <= i32::MAX,
        Token::Signal(name, details) => is_name(name) && details.len() == 0,
        _ => false,
    }
}

/// Whether `tracer` can be the path of the tracer's binary: it begins with `/`
/// and holds no space, colon, opening parenthesis or quote.
pub open spec fn is_tracer_path(tracer: Seq<char>) -> bool {
    &&& tracer.len() > 0
    &&& tracer[0] == '/'
    &&& forall|k: int| 0 <= k < tracer.len() ==> CharClass::Program.contains(#[trigger] tracer[k])
}

/// Whether a count of microseconds is one that a time can hold.
pub open spec fn is_time(micros: int) -> bool {
    0 <= micros <= u64::MAX
}

/// A run of characters of a class that is followed by the end of the text, or by
/// a character that is not of the class, ends there.
pub(crate) proof fn lemma_run_stops(s: Seq<char>, i: int, j: int, class: CharClass)
    requires
        0 <= i <= j <= s.len(),
        forall|k: int| i <= k < j ==> class.contains(#[trigger] s[k]),
        j < s.len() ==> !class.contains(s[j]),
    ensures
        run_end(s, i, class) == j,
    decreases j - i,
{
    if i < j {
        lemma_run_stops(s, i + 1, j, class);
    }
}

/// The character at place `k` of a text that stands in another is the character
/// of the other at that place.
pub(crate) proof fn lemma_char_of_lit(s: Seq<char>, i: int, lit: Seq<char>, k: int)
    requires
        has_lit(s, i, lit),
        0 <= k < lit.len(),
    ensures
        s[i + k] == lit[k],
{
    assert(s.subrange(i, i + lit.len())[k] == s[i + k]);
}

/// A text does not stand where one of its characters is missing.
pub(crate) proof fn lemma_no_lit(s: Seq<char>, i: int, lit: Seq<char>, k: int)
    requires
        0 <= k < lit.len(),
        0 <= i,
        i + k < s.len() ==> s[i + k] != lit[k],
    ensures
        !has_lit(s, i, lit),
{
    if has_lit(s, i, lit) {
        lemma_char_of_lit(s, i, lit, k);
    }
}

/// Where what is left of a text is three parts, one after the other, each part
/// stands at its place.
pub(crate) proof fn lemma_framed(s: Seq<char>, b: int, head: Seq<char>, middle: Seq<char>, tail: Seq<char>)
    requires
        0 <= b <= s.len(),
        s.subrange(b, s.len() as int) == head + middle + tail,
    ensures
        has_lit(s, b, head),
        has_lit(s, b + head.len(), middle),
        has_lit(s, b + head.len() + middle.len(), tail),
        b + head.len() + middle.len() + tail.len() == s.len(),
{
    let whole = s.subrange(b, s.len() as int);
    let h = head.len() as int;
    let m = middle.len() as int;
    assert(whole.len() == head.len() + middle.len() + tail.len());
    assert(s.subrange(b, b + h) =~= head) by {
        assert forall|k: int| 0 <= k < h implies s[b + k] == head[k] by {
            assert(whole[k] == s[b + k]);
        }
    }
    assert(s.subrange(b + h, b + h + m) =~= middle) by {
        assert forall|k: int| 0 <= k < m implies s[b + h + k] == middle[k] by {
            assert(whole[h + k] == s[b + h + k]);
        }
    }
    assert(s.subrange(b + h + m, b + h + m + tail.len()) =~= tail) by {
        assert forall|k: int| 0 <= k < tail.len() implies s[b + h + m + k] == tail[k] by {
            assert(whole[h + m + k] == s[b + h + m + k]);
        }
    }
}

/// A number that is not negative, in decimal, that stands in a text with no
/// digit behind it, is read there as itself, and begins with a digit.
pub(crate) proof fn lemma_digits_read_back_at(s: Seq<char>, i: int, n: int, limit: int)
    requires
        0 <= i,
        0 <= n <= limit,
        has_lit(s, i, number_text(n as nat, 10)),
        i + number_text(n as nat, 10).len() < s.len() ==> !is_digit(
            s[i + number_text(n as nat, 10).len()],
        ),
    ensures
        parse_digits(s, i, CharClass::Digit, 10, limit) == Some(
            (n, i + number_text(n as nat, 10).len()),
        ),
        is_digit(s[i]),
{
    let digits = number_text(n as nat, 10);
    let j = i + digits.len();
    lemma_number_text_value(n as nat, 10);
    assert forall|k: int| i <= k < j implies CharClass::Digit.contains(#[trigger] s[k]) by {
        lemma_char_of_lit(s, i, digits, k - i);
        assert(digits[k - i] == digit_char(digit_value(digits[k - i])));
    }
    lemma_run_stops(s, i, j, CharClass::Digit);
    assert(s.subrange(i, j) =~= digits);
}

/// A number in decimal that stands in a text, with no digit behind it, is read
/// there as itself.
pub(crate) proof fn lemma_decimal_reads_back_at(s: Seq<char>, i: int, n: int, limit: int)
    requires
        0 <= i,
        limit >= 0,
        -limit - 1 <= n <= limit,
        has_lit(s, i, decimal_text(n)),
        i + decimal_text(n).len() < s.len() ==> !is_digit(s[i + decimal_text(n).len()]),
    ensures
        parse_signed(s, i, limit) == Some((n, i + decimal_text(n).len())),
{
    let text = decimal_text(n);
    if n < 0 {
        let digits = number_text((-n) as nat, 10);
        lemma_char_of_lit(s, i, text, 0);
        assert(s.subrange(i + 1, i + 1 + digits.len()) =~= digits) by {
            assert forall|k: int| 0 <= k < digits.len() implies s[i + 1 + k] == digits[k] by {
                lemma_char_of_lit(s, i, text, k + 1);
            }
        }
        lemma_digits_read_back_at(s, i + 1, -n, limit + 1);
    } else {
        lemma_digits_read_back_at(s, i, n, limit);
    }
}

/// A name that stands in a text, with no letter, digit or `_` behind it, is read
/// there as itself.
pub(crate) proof fn lemma_name_reads_back_at(s: Seq<char>, i: int, name: Seq<char>)
    requires
        0 <= i,
        is_name(name),
        has_lit(s, i, name),
        i + name.len() < s.len() ==> !is_word(s[i + name.len()]),
    ensures
        parse_ident(s, i) == Some((name, i + name.len())),
{
    let j = i + name.len();
    lemma_char_of_lit(s, i, name, 0);
    assert forall|k: int| i + 1 <= k < j implies CharClass::Word.contains(#[trigger] s[k]) by {
        lemma_char_of_lit(s, i, name, k - i);
    }
    lemma_run_stops(s, i + 1, j, CharClass::Word);
}

/// The notice of an exit, where it is all that is left of a text, is read as
/// the body of the line.
pub(crate) proof fn lemma_exit_body(s: Seq<char>, b: int, code: int)
    requires
        0 <= b <= s.len(),
        fits_i32(code),
        s.subrange(b, s.len() as int) == "+++ exited with "@ + decimal_text(code) + " +++"@,
    ensures
        parse_body(s, b) == Some((Token::Exit(code), s.len() as int)),
        b < s.len() && s[b] == '+',
{
    let head = "+++ exited with "@;
    let tail = " +++"@;
    lemma_framed(s, b, head, decimal_text(code), tail);
    reveal_strlit("+++ exited with ");
    reveal_strlit(" +++");
    reveal_strlit("--- ");
    lemma_char_of_lit(s, b, head, 0);
    lemma_no_lit(s, b, "--- "@, 0);
    lemma_char_of_lit(s, b + head.len() + decimal_text(code).len(), tail, 0);
    lemma_decimal_reads_back_at(s, b + 16, code, i32::MAX as int);
}

/// The notice of a kill, where it is all that is left of a text, is read as the
/// body of the line.
pub(crate) proof fn lemma_kill_body(s: Seq<char>, b: int, name: Seq<char>)
    requires
        0 <= b <= s.len(),
        is_name(name),
        s.subrange(b, s.len() as int) == "+++ killed by "@ + name + " +++"@,
    ensures
        parse_body(s, b) == Some((Token::Kill(name), s.len() as int)),
        b < s.len() && s[b] == '+',
{
    let head = "+++ killed by "@;
    let tail = " +++"@;
    lemma_framed(s, b, head, name, tail);
    reveal_strlit("+++ exited with ");
    reveal_strlit("+++ killed by ");
    reveal_strlit(" +++");
    reveal_strlit("--- ");
    lemma_char_of_lit(s, b, head, 0);
    lemma_char_of_lit(s, b, head, 4);
    lemma_no_lit(s, b, "--- "@, 0);
    lemma_no_lit(s, b, "+++ exited with "@, 4);
    lemma_char_of_lit(s, b + head.len() + name.len(), tail, 0);
    lemma_name_reads_back_at(s, b + 14, name);
}

/// Where three parts, one after the other, stand in a text, each part stands
/// at its place.
pub(crate) proof fn lemma_lit_of_three(s: Seq<char>, i: int, a: Seq<char>, b: Seq<char>, c: Seq<char>)
    requires
        has_lit(s, i, a + b + c),
    ensures
        has_lit(s, i, a),
        has_lit(s, i + a.len(), b),
        has_lit(s, i + a.len() + b.len(), c),
{
    let whole = a + b + c;
    assert(s.subrange(i, i + a.len()) =~= a) by {
        assert forall|k: int| 0 <= k < a.len() implies s[i + k] == a[k] by {
            lemma_char_of_lit(s, i, whole, k);
        }
    }
    assert(s.subrange(i + a.len(), i + a.len() + b.len()) =~= b) by {
        assert forall|k: int| 0 <= k < b.len() implies s[i + a.len() + k] == b[k] by {
            lemma_char_of_lit(s, i, whole, a.len() + k);
        }
    }
    assert(s.subrange(i + a.len() + b.len(), i + a.len() + b.len() + c.len()) =~= c) by {
        assert forall|k: int| 0 <= k < c.len() implies s[i + a.len() + b.len() + k] == c[k] by {
            lemma_char_of_lit(s, i, whole, a.len() + b.len() + k);
        }
    }
}

/// Where what is left of a text is four parts, one after the other, each part
/// stands at its place.
pub(crate) proof fn lemma_framed_four(
    s: Seq<char>,
    b: int,
    first: Seq<char>,
    second: Seq<char>,
    third: Seq<char>,
    fourth: Seq<char>,
)
    requires
        0 <= b <= s.len(),
        s.subrange(b, s.len() as int) == first + second + third + fourth,
    ensures
        has_lit(s, b, first),
        has_lit(s, b + first.len(), second),
        has_lit(s, b + first.len() + second.len(), third),
        has_lit(s, b + first.len() + second.len() + third.len(), fourth),
        b + first.len() + second.len() + third.len() + fourth.len() == s.len(),
{
    assert(first + second + third + fourth =~= first + (second + third + fourth));
    assert(first + second + third + fourth =~= (first + second) + third + fourth);
    lemma_framed(s, b, first, second + third + fourth, Seq::empty());
    assert(s.subrange(b, s.len() as int) =~= first + (second + third + fourth) + Seq::<char>::empty());
    let whole = s.subrange(b, s.len() as int);
    let rest = s.subrange(b + first.len(), s.len() as int);
    assert(rest =~= second + third + fourth) by {
        assert forall|k: int| 0 <= k < rest.len() implies rest[k] == (second + third + fourth)[k] by {
            assert(whole[first.len() + k] == s[b + first.len() + k]);
        }
    }
    lemma_framed(s, b + first.len(), second, third, fourth);
}

/// The tracer's name, a phrase, a process id and a phrase, where they are all
/// that is left of a text, are read as the notice that they make.
pub(crate) proof fn lemma_process_reads_back(
    s: Seq<char>,
    b: int,
    program: Seq<char>,
    before: Seq<char>,
    pid: int,
    after: Seq<char>,
)
    requires
        0 <= b <= s.len(),
        program.len() > 0,
        forall|k: int| 0 <= k < program.len() ==> CharClass::Program.contains(#[trigger] program[k]),
        before.len() > 0 && before[0] == ':',
        after.len() > 0 && !is_digit(after[0]),
        0 <= pid <= i32::MAX,
        s.subrange(b, s.len() as int) == program + before + decimal_text(pid) + after,
    ensures
        run_end(s, b, CharClass::Program) == b + program.len(),
        has_lit(s, b, program),
        has_lit(s, b + program.len(), before),
        parse_process(s, b, before, after) == Some((pid, s.len() as int)),
        parse_digits(s, b + program.len() + before.len(), CharClass::Digit, 10, i32::MAX as int)
            == Some((pid, s.len() - after.len())),
        has_lit(s, s.len() - after.len(), after),
{
    let digits = decimal_text(pid);
    lemma_framed_four(s, b, program, before, digits, after);
    let p = b + program.len();
    assert forall|k: int| b <= k < p implies CharClass::Program.contains(#[trigger] s[k]) by {
        lemma_char_of_lit(s, b, program, k - b);
    }
    lemma_char_of_lit(s, p, before, 0);
    lemma_run_stops(s, b, p, CharClass::Program);
    let d = p + before.len();
    lemma_char_of_lit(s, d + digits.len(), after, 0);
    lemma_digits_read_back_at(s, d, pid, i32::MAX as int);
}

/// No notice of a signal, an exit or a kill stands where a text goes on with a
/// character that is neither `-` nor `+`.
pub(crate) proof fn lemma_not_a_marked_notice(s: Seq<char>, b: int)
    requires
        0 <= b < s.len(),
        s[b] != '-',
        s[b] != '+',
    ensures
        parse_signal(s, b) is None,
        parse_exit(s, b) is None,
        parse_kill(s, b) is None,
{
    reveal_strlit("--- ");
    reveal_strlit("+++ exited with ");
    reveal_strlit("+++ killed by ");
    lemma_no_lit(s, b, "--- "@, 0);
    lemma_no_lit(s, b, "+++ exited with "@, 0);
    lemma_no_lit(s, b, "+++ killed by "@, 0);
}

/// The notice that the tracer may not attach, where it is all that is left of a
/// text, is read as the body of the line.
pub(crate) proof fn lemma_denied_body(s: Seq<char>, b: int, pid: int, tracer: Seq<char>)
    requires
        0 <= b <= s.len(),
        0 <= pid <= i32::MAX,
        is_tracer_path(tracer),
        s.subrange(b, s.len() as int) == render(Token::PermissionDenied(pid), tracer),
    ensures
        parse_body(s, b) == Some((Token::PermissionDenied(pid), s.len() as int)),
        b < s.len() && s[b] == '/',
{
    let before = ": attach: ptrace(PTRACE_SEIZE, "@;
    let after = "): Operation not permitted"@;
    reveal_strlit(": attach: ptrace(PTRACE_SEIZE, ");
    reveal_strlit("): Operation not permitted");
    lemma_process_reads_back(s, b, tracer, before, pid, after);
    lemma_char_of_lit(s, b, tracer, 0);
    lemma_not_a_marked_notice(s, b);
}

/// The notice that the tracer attached, where it is all that is left of a text,
/// is read as the body of the line.
pub(crate) proof fn lemma_attach_body(s: Seq<char>, b: int, pid: int, tracer: Seq<char>)
    requires
        0 <= b <= s.len(),
        0 <= pid <= i32::MAX,
        is_tracer_path(tracer),
        s.subrange(b, s.len() as int) == render(Token::ProcessAttach(pid), tracer),
    ensures
        parse_body(s, b) == Some((Token::ProcessAttach(pid), s.len() as int)),
        b < s.len() && s[b] == '/',
{
    let before = ": Process "@;
    let after = " attached"@;
    reveal_strlit(": Process ");
    reveal_strlit(" attached");
    reveal_strlit(": attach: ptrace(PTRACE_SEIZE, ");
    lemma_process_reads_back(s, b, tracer, before, pid, after);
    lemma_char_of_lit(s, b, tracer, 0);
    lemma_not_a_marked_notice(s, b);
    let p = b + tracer.len();
    lemma_char_of_lit(s, p, before, 2);
    lemma_no_lit(s, p, ": attach: ptrace(PTRACE_SEIZE, "@, 2);
}

/// The notice that the tracer detached, where it is all that is left of a text,
/// is read as the body of the line.
pub(crate) proof fn lemma_detach_body(s: Seq<char>, b: int, pid: int, tracer: Seq<char>)
    requires
        0 <= b <= s.len(),
        0 <= pid <= i32::MAX,
        s.subrange(b, s.len() as int) == render(Token::ProcessDetach(pid), tracer),
    ensures
        parse_body(s, b) == Some((Token::ProcessDetach(pid), s.len() as int)),
        b < s.len() && s[b] == 's',
{
    let program = "strace"@;
    let before = ": Process "@;
    let after = " detached"@;
    reveal_strlit("strace");
    reveal_strlit(": Process ");
    reveal_strlit(" detached");
    reveal_strlit(" attached");
    reveal_strlit(": attach: ptrace(PTRACE_SEIZE, ");
    lemma_process_reads_back(s, b, program, before, pid, after);
    lemma_char_of_lit(s, b, program, 0);
    lemma_not_a_marked_notice(s, b);
    let p = b + program.len();
    lemma_char_of_lit(s, p, before, 2);
    lemma_no_lit(s, p, ": attach: ptrace(PTRACE_SEIZE, "@, 2);
    let j = s.len() - after.len();
    lemma_char_of_lit(s, j, after, 1);
    lemma_no_lit(s, j, " attached"@, 1);
}

/// The notice of a signal without details, where it is all that is left of a
/// text, is read as the body of the line.
pub(crate) proof fn lemma_signal_body(s: Seq<char>, b: int, name: Seq<char>)
    requires
        0 <= b <= s.len(),
        is_name(name),
        s.subrange(b, s.len() as int) == "--- "@ + name + " ---"@,
    ensures
        parse_body(s, b) == Some((Token::Signal(name, Seq::empty()), s.len() as int)),
        b < s.len() && s[b] == '-',
{
    let head = "--- "@;
    let tail = " ---"@;
    lemma_framed(s, b, head, name, tail);
    reveal_strlit("--- ");
    reveal_strlit(" ---");
    lemma_char_of_lit(s, b, head, 0);
    lemma_char_of_lit(s, b + head.len() + name.len(), tail, 0);
    lemma_name_reads_back_at(s, b + 4, name);
}

/// The notice of a signal with dots in place of its details, where it is all
/// that is left of a text, is read as a signal without details: the dots are
/// dropped.
pub proof fn lemma_signal_with_dots(s: Seq<char>, b: int, name: Seq<char>)
    requires
        0 <= b <= s.len(),
        is_name(name),
        s.subrange(b, s.len() as int) == "--- "@ + name + " ... ---"@,
    ensures
        parse_body(s, b) == Some((Token::Signal(name, Seq::empty()), s.len() as int)),
{
    let head = "--- "@;
    let tail = " ... ---"@;
    lemma_framed(s, b, head, name, tail);
    reveal_strlit("--- ");
    reveal_strlit(" ---");
    reveal_strlit(" ... ---");
    let j = b + head.len() + name.len();
    lemma_char_of_lit(s, j, tail, 0);
    lemma_char_of_lit(s, j, tail, 1);
    lemma_no_lit(s, j, " ---"@, 1);
    lemma_name_reads_back_at(s, b + 4, name);
}

/// A plain notice, where it is all that is left of a text, is read as the body
/// of the line, and begins with a character that no process and no time before a
/// line begins with.
pub(crate) proof fn lemma_notice_body(s: Seq<char>, b: int, t: Token, tracer: Seq<char>)
    requires
        0 <= b <= s.len(),
        is_plain_notice(t),
        is_tracer_path(tracer),
        s.subrange(b, s.len() as int) == render(t, tracer),
    ensures
        parse_body(s, b) == Some((t, s.len() as int)),
        b < s.len(),
        s[b] == '+' || s[b] == '/' || s[b] == 's' || s[b] == '-',
{
    match t {
        Token::Signal(name, details) => {
            assert(details =~= Seq::<Token>::empty());
            assert(render(t, tracer) =~= "--- "@ + name + " ---"@);
            lemma_signal_body(s, b, name);
        },
        Token::Exit(code) => {
            lemma_exit_body(s, b, code);
        },
        Token::Kill(name) => {
            lemma_kill_body(s, b, name);
        },
        Token::ProcessDetach(pid) => {
            lemma_detach_body(s, b, pid, tracer);
        },
        Token::ProcessAttach(pid) => {
            lemma_attach_body(s, b, pid, tracer);
        },
        Token::PermissionDenied(pid) => {
            lemma_denied_body(s, b, pid, tracer);
        },
        _ => {},
    }
}

/// The value of a number when `digits` are written behind it.
pub open spec fn extended_value(value: int, digits: Seq<char>, base: int) -> int
    decreases digits.len(),
{
    if digits.len() == 0 {
        value
    } else {
        extended_value(value, digits.drop_last(), base) * base + digit_value(digits.last())
    }
}

/// The value of digits behind digits is the value of the first, extended by the
/// second.
pub(crate) proof fn lemma_value_of_joined(a: Seq<char>, b: Seq<char>, base: int)
    ensures
        number_value(a + b, base) == extended_value(number_value(a, base), b, base),
    decreases b.len(),
{
    if b.len() == 0 {
        assert(a + b =~= a);
    } else {
        assert((a + b).drop_last() =~= a + b.drop_last());
        lemma_value_of_joined(a, b.drop_last(), base);
    }
}

/// Six decimal digits behind a number make it a million times as much, and add
/// their own value.
pub(crate) proof fn lemma_six_digits_behind(value: int, digits: Seq<char>)
    requires
        digits.len() == 6,
    ensures
        extended_value(value, digits, 10) == value * 1_000_000 + number_value(digits, 10),
{
    let d5 = digits.drop_last();
    let d4 = d5.drop_last();
    let d3 = d4.drop_last();
    let d2 = d3.drop_last();
    let d1 = d2.drop_last();
    let d0 = d1.drop_last();
    assert(d0.len() == 0);
    assert(extended_value(value, d0, 10) == value);
    assert(number_value(d0, 10) == 0);
    assert(extended_value(value, d1, 10) == value * 10 + number_value(d1, 10));
    assert(extended_value(value, d2, 10) == value * 100 + number_value(d2, 10));
    assert(extended_value(value, d3, 10) == value * 1000 + number_value(d3, 10));
    assert(extended_value(value, d4, 10) == value * 10000 + number_value(d4, 10));
    assert(extended_value(value, d5, 10) == value * 100000 + number_value(d5, 10));
}

/// The text without its dots, of a text behind another, is that of the first
/// and behind it that of the second.
pub(crate) proof fn lemma_without_dots_of_joined(a: Seq<char>, b: Seq<char>)
    ensures
        without_dots(a + b) == without_dots(a) + without_dots(b),
    decreases b.len(),
{
    if b.len() == 0 {
        assert(a + b =~= a);
        assert(without_dots(a) + without_dots(b) =~= without_dots(a));
    } else {
        assert((a + b).drop_last() =~= a + b.drop_last());
        lemma_without_dots_of_joined(a, b.drop_last());
        if b.last() != '.' {
            assert(without_dots(a) + without_dots(b.drop_last()).push(b.last()) =~= (without_dots(a)
                + without_dots(b.drop_last())).push(b.last()));
        }
    }
}

/// A text of digits has no dots to lose.
pub(crate) proof fn lemma_without_dots_of_digits(a: Seq<char>)
    requires
        forall|k: int| 0 <= k < a.len() ==> is_digit(#[trigger] a[k]),
    ensures
        without_dots(a) == a,
    decreases a.len(),
{
    if a.len() > 0 {
        lemma_without_dots_of_digits(a.drop_last());
        assert(a.drop_last().push(a.last()) =~= a);
    }
}

/// The digits of a number in decimal are digits.
pub(crate) proof fn lemma_decimal_digits(n: nat)
    ensures
        number_text(n, 10).len() > 0,
        forall|k: int| 0 <= k < number_text(n, 10).len() ==> is_digit(#[trigger] number_text(n, 10)[k]),
{
    lemma_number_text_value(n, 10);
    let digits = number_text(n, 10);
    assert forall|k: int| 0 <= k < digits.len() implies is_digit(#[trigger] digits[k]) by {
        assert(digits[k] == digit_char(digit_value(digits[k])));
    }
}

/// A time that is written, its microseconds in six digits, is worth, as a
/// timestamp, what it is.
pub proof fn lemma_timestamp_value_of_written(micros: int)
    requires
        is_time(micros),
    ensures
        timestamp_value(
            number_text((micros / 1_000_000) as nat, 10) + seq!['.'] + fixed_text(
                (micros % 1_000_000) as nat,
                6,
            ),
        ) == micros,
{
    let secs = number_text((micros / 1_000_000) as nat, 10);
    let sub = fixed_text((micros % 1_000_000) as nat, 6);
    lemma_decimal_digits((micros / 1_000_000) as nat);
    lemma_fixed_text((micros % 1_000_000) as nat, 6);
    lemma_number_text_value((micros / 1_000_000) as nat, 10);
    lemma_six_fixed_digits((micros % 1_000_000) as nat);
    lemma_without_dots_of_joined(secs + seq!['.'], sub);
    lemma_without_dots_of_joined(secs, seq!['.']);
    lemma_without_dots_of_digits(secs);
    lemma_without_dots_of_digits(sub);
    let dot = seq!['.'];
    assert(dot.last() == '.');
    assert(without_dots(dot.drop_last()) == dot.drop_last());
    assert(without_dots(dot) == without_dots(dot.drop_last()));
    assert(without_dots(dot) =~= Seq::<char>::empty());
    assert(secs + Seq::<char>::empty() =~= secs);
    lemma_value_of_joined(secs, sub, 10);
    lemma_six_digits_behind(number_value(secs, 10), sub);
}

/// `[pid`, a space, a process id, `]` and a space, in a text that does not go on
/// with another space, are read as the process before a line.
pub(crate) proof fn lemma_pid_prefix_of_parts(s: Seq<char>, pid: int, j: int)
    requires
        0 <= pid <= i32::MAX,
        has_lit(s, 0, "[pid"@),
        "[pid"@.len() == 4,
        s.len() >= 5 && s[4] == ' ',
        has_lit(s, 5, decimal_text(pid)),
        j == 5 + decimal_text(pid).len(),
        j + 2 <= s.len(),
        s[j] == ']',
        s[j + 1] == ' ',
        j + 2 < s.len() ==> s[j + 2] != ' ',
    ensures
        parse_pid_prefix(s, 0) == Some((pid, j + 2)),
{
    lemma_digits_read_back_at(s, 5, pid, i32::MAX as int);
    lemma_run_stops(s, 4, 5, CharClass::Space);
    lemma_run_stops(s, j + 1, j + 2, CharClass::Space);
    assert(after_lit(s, 0, "[pid"@) == Some(4int));
    assert(spaces_end(s, 4) == Some(5int));
    assert(spaces_end(s, j + 1) == Some(j + 2));
}

/// `[pid N] ` at the beginning of a text that does not go on with a space is
/// read as the process before a line.
pub(crate) proof fn lemma_pid_prefix_reads_back(s: Seq<char>, pid: int, rest: Seq<char>)
    requires
        0 <= pid <= i32::MAX,
        s == "[pid "@ + decimal_text(pid) + "] "@ + rest,
        rest.len() > 0,
        rest[0] != ' ',
    ensures
        parse_pid_prefix(s, 0) == Some((pid, s.len() - rest.len())),
        s.subrange(s.len() - rest.len(), s.len() as int) == rest,
{
    let open = "[pid "@;
    let close = "] "@;
    let digits = decimal_text(pid);
    let j: int = 5 + digits.len() as int;
    assert(s.subrange(0, s.len() as int) =~= s);
    lemma_framed_four(s, 0, open, digits, close, rest);
    assert(has_lit(s, 0, "[pid"@) && "[pid"@.len() == 4 && s[4] == ' ' && open.len() == 5) by {
        reveal_strlit("[pid ");
        reveal_strlit("[pid");
        lemma_char_of_lit(s, 0, open, 0);
        lemma_char_of_lit(s, 0, open, 1);
        lemma_char_of_lit(s, 0, open, 2);
        lemma_char_of_lit(s, 0, open, 3);
        lemma_char_of_lit(s, 0, open, 4);
        assert(s.subrange(0, 4) =~= "[pid"@);
    }
    assert(s[j] == ']' && s[j + 1] == ' ' && close.len() == 2) by {
        reveal_strlit("] ");
        lemma_char_of_lit(s, j, close, 0);
        lemma_char_of_lit(s, j, close, 1);
    }
    lemma_char_of_lit(s, j + 2, rest, 0);
    lemma_pid_prefix_of_parts(s, pid, j);
    assert(s.subrange(j + 2, s.len() as int) =~= rest) by {
        assert(s.subrange(j + 2, j + 2 + rest.len()) =~= s.subrange(j + 2, s.len() as int));
    }
}

/// A time, its microseconds in six digits, and a space behind it, in a text that
/// does not go on with another space, are read as the time before a line.
pub(crate) proof fn lemma_time_prefix_reads_back(s: Seq<char>, a: int, micros: int, rest: Seq<char>)
    requires
        0 <= a <= s.len(),
        is_time(micros),
        s.subrange(a, s.len() as int) == number_text((micros / 1_000_000) as nat, 10) + "."@
            + fixed_text((micros % 1_000_000) as nat, 6) + " "@ + rest,
        rest.len() > 0,
        rest[0] != ' ',
    ensures
        parse_time_prefix(s, a) == Some((micros, s.len() - rest.len())),
        s.subrange(s.len() - rest.len(), s.len() as int) == rest,
        is_digit(s[a]),
{
    let secs = number_text((micros / 1_000_000) as nat, 10);
    let sub = fixed_text((micros % 1_000_000) as nat, 6);
    let tail = " "@ + rest;
    reveal_strlit(".");
    reveal_strlit(" ");
    assert("."@ =~= seq!['.']);
    assert(secs + "."@ + sub + " "@ + rest =~= secs + "."@ + sub + tail);
    lemma_framed_four(s, a, secs, "."@, sub, tail);
    lemma_decimal_digits((micros / 1_000_000) as nat);
    lemma_fixed_text((micros % 1_000_000) as nat, 6);
    let dot: int = a + secs.len() as int;
    let b: int = dot + 1 + sub.len() as int;
    lemma_char_of_lit(s, dot, "."@, 0);
    lemma_char_of_lit(s, b, tail, 0);
    lemma_char_of_lit(s, b, tail, 1);
    lemma_char_of_lit(s, a, secs, 0);
    assert forall|k: int| a <= k < dot implies CharClass::Digit.contains(#[trigger] s[k]) by {
        lemma_char_of_lit(s, a, secs, k - a);
    }
    assert forall|k: int| dot + 1 <= k < b implies CharClass::Digit.contains(#[trigger] s[k]) by {
        lemma_char_of_lit(s, dot + 1, sub, k - dot - 1);
    }
    lemma_run_stops(s, a, dot, CharClass::Digit);
    lemma_run_stops(s, dot + 1, b, CharClass::Digit);
    lemma_run_stops(s, b, b + 1, CharClass::Space);
    assert(s.subrange(a, b) =~= secs + seq!['.'] + sub) by {
        assert forall|k: int| 0 <= k < b - a implies s[a + k] == (secs + seq!['.'] + sub)[k] by {
            if k < secs.len() {
                lemma_char_of_lit(s, a, secs, k);
            } else if k > secs.len() {
                lemma_char_of_lit(s, dot + 1, sub, k - secs.len() - 1);
            }
        }
    }
    lemma_timestamp_value_of_written(micros);
    assert(s.subrange(b + 1, s.len() as int) =~= rest) by {
        assert forall|k: int| 0 <= k < rest.len() implies s[b + 1 + k] == rest[k] by {
            lemma_char_of_lit(s, b, tail, k + 1);
        }
    }
}

/// No process stands before a line that does not begin with `[`.
pub(crate) proof fn lemma_no_pid_prefix(s: Seq<char>)
    requires
        s.len() > 0 ==> s[0] != '[',
    ensures
        parse_pid_prefix(s, 0) is None,
{
    reveal_strlit("[pid");
    lemma_no_lit(s, 0, "[pid"@, 0);
}

/// No time stands where a text does not go on with a digit.
pub(crate) proof fn lemma_no_time_prefix(s: Seq<char>, a: int)
    requires
        0 <= a,
        a < s.len() ==> !is_digit(s[a]),
    ensures
        parse_time_prefix(s, a) is None,
{
}

/// The process and the time that are written before a body are read as what
/// stands before the body, where the body begins with a character that neither
/// of them begins with.
pub(crate) proof fn lemma_prefix_reads_back(line: Line, tracer: Seq<char>)
    requires
        line.pid is Some ==> 0 <= line.pid.unwrap() <= i32::MAX,
        line.time is Some ==> is_time(line.time.unwrap()),
        render(line.inner, tracer).len() > 0,
        render(line.inner, tracer)[0] != ' ',
        render(line.inner, tracer)[0] != '[',
        !is_digit(render(line.inner, tracer)[0]),
    ensures
        render_line(line, tracer).len() >= render(line.inner, tracer).len(),
        parse_prefix(render_line(line, tracer)) == (
            line.pid,
            line.time,
            render_line(line, tracer).len() - render(line.inner, tracer).len(),
        ),
        render_line(line, tracer).subrange(
            render_line(line, tracer).len() - render(line.inner, tracer).len(),
            render_line(line, tracer).len() as int,
        ) == render(line.inner, tracer),
{
    let body = render(line.inner, tracer);
    let s = render_line(line, tracer);
    match line.pid {
        None => {
            match line.time {
                None => {
                    assert(s =~= body);
                    assert(s.subrange(0, s.len() as int) =~= s);
                    lemma_no_pid_prefix(s);
                    lemma_no_time_prefix(s, 0);
                },
                Some(micros) => {
                    let time = number_text((micros / 1_000_000) as nat, 10) + "."@ + fixed_text(
                        (micros % 1_000_000) as nat,
                        6,
                    ) + " "@;
                    assert(s =~= time + body);
                    assert(s.subrange(0, s.len() as int) =~= number_text(
                        (micros / 1_000_000) as nat,
                        10,
                    ) + "."@ + fixed_text((micros % 1_000_000) as nat, 6) + " "@ + body);
                    lemma_time_prefix_reads_back(s, 0, micros, body);
                    lemma_no_pid_prefix(s);
                },
            }
        },
        Some(pid) => {
            let process = "[pid "@ + decimal_text(pid) + "] "@;
            match line.time {
                None => {
                    assert(s =~= process + body);
                    lemma_pid_prefix_reads_back(s, pid, body);
                    let a = s.len() - body.len();
                    assert(s.subrange(a, s.len() as int)[0] == s[a]);
                    lemma_no_time_prefix(s, a);
                },
                Some(micros) => {
                    let time = number_text((micros / 1_000_000) as nat, 10) + "."@ + fixed_text(
                        (micros % 1_000_000) as nat,
                        6,
                    ) + " "@;
                    let rest = time + body;
                    lemma_decimal_digits((micros / 1_000_000) as nat);
                    assert(rest[0] == number_text((micros / 1_000_000) as nat, 10)[0]);
                    assert(s =~= process + rest);
                    lemma_pid_prefix_reads_back(s, pid, rest);
                    let a = s.len() - rest.len();
                    assert(s.subrange(a, s.len() as int) =~= number_text(
                        (micros / 1_000_000) as nat,
                        10,
                    ) + "."@ + fixed_text((micros % 1_000_000) as nat, 6) + " "@ + body);
                    lemma_time_prefix_reads_back(s, a, micros, body);
                },
            }
        },
    }
}

/// A line that is a plain notice, written and decoded, is the line again:
/// whatever the exit code, the name of the signal or the process, with or without
/// a process before it, and with or without a time.
pub proof fn lemma_notice_line_comes_back(line: Line, tracer: Seq<char>)
    requires
        is_plain_notice(line.inner),
        is_tracer_path(tracer),
        line.pid is Some ==> 0 <= line.pid.unwrap() <= i32::MAX,
        line.time is Some ==> is_time(line.time.unwrap()),
    ensures
        parse_line(render_line(line, tracer)) == Some(line),
{
    let body = render(line.inner, tracer);
    let s = render_line(line, tracer);
    assert(body.subrange(0, body.len() as int) =~= body);
    lemma_notice_body(body, 0, line.inner, tracer);
    lemma_prefix_reads_back(line, tracer);
    lemma_notice_body(s, s.len() - body.len(), line.inner, tracer);
}

/// The path that a line is written with where none is given is a path that the
/// tracer's binary can have.
pub proof fn lemma_default_tracer_is_path()
    ensures
        is_tracer_path(default_tracer()),
{
    reveal_strlit("/usr/bin/strace");
}

} // verus!
