//! Strings in the memory of a traced process, which is read one word at a time.

use byteorder::{LittleEndian, WriteBytesExt};
use vstd::prelude::*;

verus! {

/// The value of a word when it is read without a sign.
pub open spec fn word_value(word: int) -> nat {
    if word < 0 {
        (word + 0x1_0000_0000_0000_0000) as nat
    } else {
        word as nat
    }
}

/// The byte at place `k` of a value, the lowest byte at place 0.
pub open spec fn byte_at(value: nat, k: nat) -> u8
    decreases k,
{
    if k == 0 {
        (value % 256) as u8
    } else {
        byte_at(value / 256, (k - 1) as nat)
    }
}

/// The eight bytes of a word, the lowest first.
pub open spec fn le_bytes(word: int) -> Seq<u8> {
    Seq::new(8, |k: int| byte_at(word_value(word), k as nat))
}

/// The bytes before the first zero byte, or all of them where none is zero.
pub open spec fn until_zero(bytes: Seq<u8>) -> Seq<u8>
    decreases bytes.len(),
{
    if bytes.len() == 0 || bytes[0] == 0 {
        Seq::empty()
    } else {
        seq![bytes[0]] + until_zero(bytes.skip(1))
    }
}

/// Whether one of the bytes is zero.
pub open spec fn has_zero(bytes: Seq<u8>) -> bool {
    exists|k: int| 0 <= k < bytes.len() && #[trigger] bytes[k] == 0
}

/// The bytes of a word.
///
/// Stands for `WriteBytesExt::write_i64::<LittleEndian>` of `byteorder` on an
/// empty vector: it appends the eight bytes of the word in two's complement, the
/// lowest first.
#[verifier::external_body]
fn word_bytes(word: i64) -> (r: Vec<u8>)
    ensures
        r@ == le_bytes(word as int),
{
    let mut bytes = vec![];
    bytes.write_i64::<LittleEndian>(word).unwrap();
    bytes
}

/// Adds to `buf` the bytes of a word that was read from a string in memory, up
/// to the end of the string. Tells whether the string goes on in the next word:
/// it ends with its first zero byte.
pub fn push_word(buf: &mut Vec<u8>, word: i64) -> (more: bool)
    ensures
        final(buf)@ == old(buf)@ + until_zero(le_bytes(word as int)),
        more == !has_zero(le_bytes(word as int)),
{
    let bytes = word_bytes(word);
    let mut k: usize = 0;
    assert(bytes@.skip(0) =~= bytes@);
    assert(buf@ + until_zero(bytes@) =~= old(buf)@ + until_zero(bytes@));
    while k < bytes.len()
        invariant
            k <= bytes.len(),
            bytes@ == le_bytes(word as int),
            buf@ + until_zero(bytes@.skip(k as int)) == old(buf)@ + until_zero(bytes@),
            forall|m: int| 0 <= m < k ==> #[trigger] bytes[m] != 0,
        decreases bytes.len() - k,
    {
        let b = bytes[k];
        if b == 0 {
            assert(until_zero(bytes@.skip(k as int)) =~= Seq::<u8>::empty());
            assert(buf@ + Seq::<u8>::empty() =~= buf@);
            return false;
        }
        proof {
            let rest = bytes@.skip(k as int);
            assert(rest.skip(1) =~= bytes@.skip(k + 1));
            assert(buf@.push(b) + until_zero(bytes@.skip(k + 1)) =~= buf@ + until_zero(rest));
        }
        buf.push(b);
        k += 1;
    }
    assert(until_zero(bytes@.skip(k as int)) =~= Seq::<u8>::empty());
    assert(buf@ + Seq::<u8>::empty() =~= buf@);
    true
}

} // verus!
