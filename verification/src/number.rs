//! Numbers as the tracer writes them: the value of a run of digits in base 8, 10
//! or 16, and the digits of a value.

use vstd::prelude::*;
use crate::text::push_char;

verus! {

/// The value of one digit; 0 for a character that is no digit.
pub open spec fn digit_value(c: char) -> int {
    if '0' <= c <= '9' {
        c as int - '0' as int
    } else if 'a' <= c <= 'f' {
        c as int - 'a' as int + 10
    } else if 'A' <= c <= 'F' {
        c as int - 'A' as int + 10
    } else {
        0
    }
}

/// The value of `digits` read in `base`, the first digit weighing most.
pub open spec fn number_value(digits: Seq<char>, base: int) -> int
    decreases digits.len(),
{
    if digits.len() == 0 {
        0
    } else {
        number_value(digits.drop_last(), base) * base + digit_value(digits.last())
    }
}

/// The digit that stands for `d` in bases up to 16, in lower case.
pub open spec fn digit_char(d: int) -> char {
    if d == 0 {
        '0'
    } else if d == 1 {
        '1'
    } else if d == 2 {
        '2'
    } else if d == 3 {
        '3'
    } else if d == 4 {
        '4'
    } else if d == 5 {
        '5'
    } else if d == 6 {
        '6'
    } else if d == 7 {
        '7'
    } else if d == 8 {
        '8'
    } else if d == 9 {
        '9'
    } else if d == 10 {
        'a'
    } else if d == 11 {
        'b'
    } else if d == 12 {
        'c'
    } else if d == 13 {
        'd'
    } else if d == 14 {
        'e'
    } else {
        'f'
    }
}

/// The digits of `n` in `base`, without leading zeros; `0` is written `0`.
pub open spec fn number_text(n: nat, base: nat) -> Seq<char>
    decreases n,
    via number_text_decreases
{
    if n < base || base < 2 {
        seq![digit_char(n as int)]
    } else {
        number_text(n / base, base).push(digit_char((n % base) as int))
    }
}

#[via_fn]
proof fn number_text_decreases(n: nat, base: nat) {
    if !(n < base || base < 2) {
        lemma_quotient_smaller(n, base);
    }
}

/// Dividing by 2 or more makes a positive number smaller.
pub(crate) proof fn lemma_quotient_smaller(n: nat, base: nat)
    requires
        n >= base >= 2,
    ensures
        n / base < n,
{
    assert(n / base < n) by (nonlinear_arith)
        requires
            n >= base >= 2,
    ;
}

/// The last `width` digits of `n` in decimal, with zeros in the places that `n`
/// does not reach.
pub open spec fn fixed_text(n: nat, width: nat) -> Seq<char>
    decreases width,
{
    if width == 0 {
        Seq::empty()
    } else {
        fixed_text(n / 10, (width - 1) as nat).push(digit_char((n % 10) as int))
    }
}

/// A signed decimal number: `-` before the digits of a negative value.
pub open spec fn decimal_text(n: int) -> Seq<char> {
    if n < 0 {
        seq!['-'] + number_text((-n) as nat, 10)
    } else {
        number_text(n as nat, 10)
    }
}

/// The number that 64 bits stand for when they are read with a sign: the value
/// itself up to `i64::MAX`, and the value less 2 to the 64th above it.
pub open spec fn signed_value(bits: int) -> int {
    if bits > i64::MAX {
        bits - 0x1_0000_0000_0000_0000
    } else {
        bits
    }
}

/// The 64 bits of a number, read without a sign: the number itself where it is
/// not negative, and the number and 2 to the 64th where it is.
pub open spec fn word_bits(n: int) -> int {
    if n < 0 {
        n + 0x1_0000_0000_0000_0000
    } else {
        n
    }
}

/// A number in hexadecimal after `0x`: the digits of its 64 bits.
pub open spec fn hex_text(n: int) -> Seq<char> {
    seq!['0', 'x'] + number_text(word_bits(n) as nat, 16)
}

/// A longer run of digits is worth at least as much as its beginning.
pub(crate) proof fn lemma_number_value_grows(s: Seq<char>, from: int, k: int, to: int, base: int)
    requires
        0 <= from <= k <= to <= s.len(),
        base >= 1,
    ensures
        0 <= number_value(s.subrange(from, k), base) <= number_value(s.subrange(from, to), base),
    decreases to - from,
{
    if from == to {
    } else {
        let whole = s.subrange(from, to);
        assert(whole.drop_last() =~= s.subrange(from, to - 1));
        let v = number_value(s.subrange(from, to - 1), base);
        if k == to {
            lemma_number_value_grows(s, from, to - 1, to - 1, base);
        } else {
            lemma_number_value_grows(s, from, k, to - 1, base);
        }
        assert(v * base >= v) by (nonlinear_arith)
            requires
                v >= 0,
                base >= 1,
        ;
    }
}

/// The digits of a number, read, are worth the number, and each is a digit of
/// the base.
pub proof fn lemma_number_text_value(n: nat, base: nat)
    requires
        2 <= base <= 16,
    ensures
        number_text(n, base).len() > 0,
        number_value(number_text(n, base), base as int) == n,
        forall|k: int|
            0 <= k < number_text(n, base).len() ==> 0 <= digit_value(
                #[trigger] number_text(n, base)[k],
            ) < base,
        forall|k: int|
            0 <= k < number_text(n, base).len() ==> number_text(n, base)[k] == digit_char(
                digit_value(#[trigger] number_text(n, base)[k]),
            ),
    decreases n,
{
    if n < base {
        let text = seq![digit_char(n as int)];
        assert(text.drop_last() =~= Seq::<char>::empty());
        assert(number_value(text.drop_last(), base as int) == 0);
        assert(number_value(text, base as int) == 0 * base + digit_value(text.last()));
    } else {
        lemma_quotient_smaller(n, base);
        lemma_number_text_value(n / base, base);
        let head = number_text(n / base, base);
        let text = head.push(digit_char((n % base) as int));
        assert(text.drop_last() =~= head);
        assert((n / base) * base + n % base == n) by (nonlinear_arith)
            requires
                base > 0,
        ;
        assert forall|k: int| 0 <= k < text.len() implies 0 <= digit_value(#[trigger] text[k])
            < base && text[k] == digit_char(digit_value(text[k])) by {
            if k < head.len() {
                assert(text[k] == head[k]);
            }
        }
    }
}

/// The value of one digit; 0 for a character that is no digit.
/// `width` fixed digits are `width` digits.
pub(crate) proof fn lemma_fixed_text(n: nat, width: nat)
    ensures
        fixed_text(n, width).len() == width,
        forall|k: int|
            0 <= k < width ==> '0' <= #[trigger] fixed_text(n, width)[k] <= '9',
    decreases width,
{
    if width > 0 {
        lemma_fixed_text(n / 10, (width - 1) as nat);
    }
}

/// Six fixed digits of a number below a million are worth the number.
pub(crate) proof fn lemma_six_fixed_digits(n: nat)
    requires
        n < 1_000_000,
    ensures
        number_value(fixed_text(n, 6), 10) == n,
{
    let t6 = fixed_text(n, 6);
    let t5 = fixed_text(n / 10, 5);
    let t4 = fixed_text(n / 100, 4);
    let t3 = fixed_text(n / 1000, 3);
    let t2 = fixed_text(n / 10000, 2);
    let t1 = fixed_text(n / 100000, 1);
    let t0 = fixed_text(n / 1000000, 0);
    assert(n / 10 / 10 == n / 100);
    assert(n / 100 / 10 == n / 1000);
    assert(n / 1000 / 10 == n / 10000);
    assert(n / 10000 / 10 == n / 100000);
    assert(n / 100000 / 10 == n / 1000000);
    assert(t1.drop_last() =~= t0);
    assert(t2.drop_last() =~= t1);
    assert(t3.drop_last() =~= t2);
    assert(t4.drop_last() =~= t3);
    assert(t5.drop_last() =~= t4);
    assert(t6.drop_last() =~= t5);
    assert(number_value(t0, 10) == 0);
    assert(number_value(t1, 10) == n / 100000);
    assert(number_value(t2, 10) == n / 10000);
    assert(number_value(t3, 10) == n / 1000);
    assert(number_value(t4, 10) == n / 100);
    assert(number_value(t5, 10) == n / 10);
}

/// The value of one digit; 0 for a character that is no digit.
pub fn digit_of(c: char) -> (d: u8)
    ensures
        d == digit_value(c),
        d < 16,
{
    if '0' <= c && c <= '9' {
        (c as u32 - '0' as u32) as u8
    } else if 'a' <= c && c <= 'f' {
        (c as u32 - 'a' as u32 + 10) as u8
    } else if 'A' <= c && c <= 'F' {
        (c as u32 - 'A' as u32 + 10) as u8
    } else {
        0
    }
}

/// Reads `s[from..to]` as a number in `base`; `None` where the value is above `limit`.
pub fn read_number(s: &[char], from: usize, to: usize, base: u8, limit: u64) -> (r: Option<u64>)
    requires
        from <= to <= s.len(),
        1 <= base <= 16,
    ensures
        0 <= number_value(s@.subrange(from as int, to as int), base as int),
        r == if number_value(s@.subrange(from as int, to as int), base as int) <= limit {
            Some(number_value(s@.subrange(from as int, to as int), base as int) as u64)
        } else {
            None
        },
{
    let mut acc: u64 = 0;
    let mut k: usize = from;
    assert(s@.subrange(from as int, from as int) =~= Seq::<char>::empty());
    while k < to
        invariant
            from <= k <= to <= s.len(),
            1 <= base <= 16,
            acc == number_value(s@.subrange(from as int, k as int), base as int),
            acc <= limit,
        decreases to - k,
    {
        let d = digit_of(s[k]);
        assert(acc * base <= 0xffff_ffff_ffff_ffff * 16) by (nonlinear_arith)
            requires
                acc <= 0xffff_ffff_ffff_ffff,
                base <= 16,
        ;
        let next: u128 = acc as u128 * base as u128 + d as u128;
        proof {
            let longer = s@.subrange(from as int, k + 1);
            assert(longer.drop_last() =~= s@.subrange(from as int, k as int));
            assert(next == number_value(longer, base as int));
            lemma_number_value_grows(s@, from as int, k + 1, to as int, base as int);
        }
        if next > limit as u128 {
            return None;
        }
        acc = next as u64;
        k += 1;
    }
    Some(acc)
}

/// The digit that stands for `d`, in lower case.
pub fn char_of_digit(d: u8) -> (c: char)
    requires
        d < 16,
    ensures
        c == digit_char(d as int),
{
    if d == 0 {
        '0'
    } else if d == 1 {
        '1'
    } else if d == 2 {
        '2'
    } else if d == 3 {
        '3'
    } else if d == 4 {
        '4'
    } else if d == 5 {
        '5'
    } else if d == 6 {
        '6'
    } else if d == 7 {
        '7'
    } else if d == 8 {
        '8'
    } else if d == 9 {
        '9'
    } else if d == 10 {
        'a'
    } else if d == 11 {
        'b'
    } else if d == 12 {
        'c'
    } else if d == 13 {
        'd'
    } else if d == 14 {
        'e'
    } else {
        'f'
    }
}

/// Appends the digits of `n` in `base` to `out`.
pub fn push_number(out: &mut String, n: u64, base: u8)
    requires
        2 <= base <= 16,
    ensures
        final(out)@ == old(out)@ + number_text(n as nat, base as nat),
    decreases n,
{
    if n < base as u64 {
        push_char(out, char_of_digit(n as u8));
        assert(out@ =~= old(out)@ + number_text(n as nat, base as nat));
    } else {
        proof {
            lemma_quotient_smaller(n as nat, base as nat);
        }
        push_number(out, n / (base as u64), base);
        push_char(out, char_of_digit((n % (base as u64)) as u8));
        assert(out@ =~= old(out)@ + number_text(n as nat, base as nat));
    }
}

/// Appends the last `width` digits of `n` in decimal to `out`, with zeros in the
/// places that `n` does not reach.
pub fn push_fixed(out: &mut String, n: u64, width: u8)
    ensures
        final(out)@ == old(out)@ + fixed_text(n as nat, width as nat),
    decreases width,
{
    if width == 0 {
        assert(out@ =~= old(out)@ + fixed_text(n as nat, 0));
    } else {
        push_fixed(out, n / 10, width - 1);
        push_char(out, char_of_digit((n % 10) as u8));
        assert(out@ =~= old(out)@ + fixed_text(n as nat, width as nat));
    }
}

/// Appends `n` in decimal to `out`.
pub fn push_decimal(out: &mut String, n: i64)
    ensures
        final(out)@ == old(out)@ + decimal_text(n as int),
{
    if n < 0 {
        push_char(out, '-');
        let magnitude: u64 = if n == i64::MIN {
            0x8000_0000_0000_0000u64
        } else {
            (-n) as u64
        };
        push_number(out, magnitude, 10);
        assert(out@ =~= old(out)@ + decimal_text(n as int));
    } else {
        push_number(out, n as u64, 10);
    }
}

/// Appends `n` in hexadecimal, after `0x`, to `out`.
pub fn push_hex(out: &mut String, n: i64)
    ensures
        final(out)@ == old(out)@ + hex_text(n as int),
{
    push_char(out, '0');
    push_char(out, 'x');
    let unsigned: u64 = if n < 0 {
        (n + 1 + 0x7fff_ffff_ffff_ffffi64) as u64 + 0x8000_0000_0000_0000u64
    } else {
        n as u64
    };
    push_number(out, unsigned, 16);
    assert(out@ =~= old(out)@ + hex_text(n as int));
}

} // verus!
