//! Random words from random bytes.

use vstd::prelude::*;

verus! {

/// The word whose digits to the base 256 are the eight `bytes`, the lowest first.
pub open spec fn le_word(bytes: Seq<u8>) -> int {
    bytes[0] + 0x100 * bytes[1] + 0x1_0000 * bytes[2] + 0x100_0000 * bytes[3] + 0x1_0000_0000
        * bytes[4] + 0x100_0000_0000 * bytes[5] + 0x1_0000_0000_0000 * bytes[6]
        + 0x100_0000_0000_0000 * bytes[7]
}

/// The number whose digits to the base 256 are `bytes`, the lowest first.
spec fn le_value(bytes: Seq<u8>) -> int
    decreases bytes.len(),
{
    if bytes.len() == 0 {
        0
    } else {
        bytes[0] + 256 * le_value(bytes.drop_first())
    }
}

/// On eight digits the two agree.
proof fn lemma_le_value_of_eight(bytes: Seq<u8>)
    requires
        bytes.len() == 8,
    ensures
        le_value(bytes) == le_word(bytes),
{
    reveal_with_fuel(le_value, 9);
}

/// Assembles a word from eight bytes of the hardware generator, the lowest first.
pub fn word_from_le_bytes(bytes: [u8; 8]) -> (word: u64)
    ensures
        word == le_word(bytes@),
{
    bytes[0] as u64 + 0x100 * bytes[1] as u64 + 0x1_0000 * bytes[2] as u64 + 0x100_0000
        * bytes[3] as u64 + 0x1_0000_0000 * bytes[4] as u64 + 0x100_0000_0000 * bytes[5] as u64
        + 0x1_0000_0000_0000 * bytes[6] as u64 + 0x100_0000_0000_0000 * bytes[7] as u64
}

/// Different digits write different numbers.
proof fn lemma_le_values_are_distinct(a: Seq<u8>, b: Seq<u8>)
    requires
        a.len() == b.len(),
        le_value(a) == le_value(b),
    ensures
        a == b,
    decreases a.len(),
{
    if a.len() > 0 {
        lemma_le_values_are_distinct(a.drop_first(), b.drop_first());
        assert(a =~= seq![a[0]] + a.drop_first());
        assert(b =~= seq![b[0]] + b.drop_first());
    } else {
        assert(a =~= b);
    }
}

/// How many numbers `len` digits to the base 256 can write.
spec fn le_count(len: nat) -> int
    decreases len,
{
    if len == 0 {
        1
    } else {
        256 * le_count((len - 1) as nat)
    }
}

/// Finds the digits of `value`.
proof fn lemma_le_digits(value: int, len: nat) -> (bytes: Seq<u8>)
    requires
        0 <= value < le_count(len),
    ensures
        bytes.len() == len,
        le_value(bytes) == value,
    decreases len,
{
    if len == 0 {
        seq![]
    } else {
        let rest: Seq<u8> = lemma_le_digits(value / 256, (len - 1) as nat);
        let bytes: Seq<u8> = seq![(value % 256) as u8] + rest;
        assert(bytes.drop_first() =~= rest);
        bytes
    }
}

/// The first byte of a word is the first of the bytes it was assembled from, counting
/// from the lowest, and so on to the eighth and highest.
pub proof fn law_word_holds_the_bytes_in_order(bytes: Seq<u8>)
    requires
        bytes.len() == 8,
    ensures
        le_word(bytes) % 0x100 == bytes[0],
        le_word(bytes) / 0x100 % 0x100 == bytes[1],
        le_word(bytes) / 0x1_0000 % 0x100 == bytes[2],
        le_word(bytes) / 0x100_0000 % 0x100 == bytes[3],
        le_word(bytes) / 0x1_0000_0000 % 0x100 == bytes[4],
        le_word(bytes) / 0x100_0000_0000 % 0x100 == bytes[5],
        le_word(bytes) / 0x1_0000_0000_0000 % 0x100 == bytes[6],
        le_word(bytes) / 0x100_0000_0000_0000 == bytes[7],
{
    let w7: int = bytes[7] as int;
    let w6: int = bytes[6] + 0x100 * w7;
    let w5: int = bytes[5] + 0x100 * w6;
    let w4: int = bytes[4] + 0x100 * w5;
    let w3: int = bytes[3] + 0x100 * w4;
    let w2: int = bytes[2] + 0x100 * w3;
    let w1: int = bytes[1] + 0x100 * w2;
    let w: int = le_word(bytes);
    assert(w == bytes[0] + 0x100 * w1);
    assert(w / 0x100 == w1);
    assert(w / 0x1_0000 == w2);
    assert(w / 0x100_0000 == w3);
    assert(w / 0x1_0000_0000 == w4);
    assert(w / 0x100_0000_0000 == w5);
    assert(w / 0x1_0000_0000_0000 == w6);
    assert(w / 0x100_0000_0000_0000 == w7);
}

/// Different bytes give different words.
pub proof fn law_words_are_distinct(a: Seq<u8>, b: Seq<u8>)
    requires
        a.len() == 8,
        b.len() == 8,
        le_word(a) == le_word(b),
    ensures
        a == b,
{
    lemma_le_value_of_eight(a);
    lemma_le_value_of_eight(b);
    lemma_le_values_are_distinct(a, b);
}

/// Every word comes from some eight bytes. As different bytes give different words,
/// the words are as evenly distributed as the bytes are.
pub proof fn law_every_word_occurs(word: u64)
    ensures
        exists|bytes: Seq<u8>| bytes.len() == 8 && #[trigger] le_word(bytes) == word,
{
    assert(le_count(8) == 0x1_0000_0000_0000_0000) by {
        reveal_with_fuel(le_count, 9);
    }
    let bytes: Seq<u8> = lemma_le_digits(word as int, 8);
    lemma_le_value_of_eight(bytes);
    assert(le_word(bytes) == word);
}

} // verus!
