//! A short, stable, printable hash of a piece of text.
//!
//! The hash is SipHash-2-4 under the key zero; it is printed in base 32
//! with the digits `0`-`9` and `A`-`V`, its bytes taken least significant
//! first. Neither depends on the machine or on the run.

use vstd::arithmetic::power2::{
    lemma2_to64, lemma2_to64_rest, lemma_pow2_adds, lemma_pow2_pos, pow2,
};
use vstd::prelude::*;
use vstd::string::StrSliceExecFns;

use crate::text::push_char;

verus! {

/// The four words that SipHash works on.
#[derive(Clone, Copy, Debug, PartialEq, Eq)]
pub struct SipState {
    pub v0: u64,
    pub v1: u64,
    pub v2: u64,
    pub v3: u64,
}

/// `word`, rotated to the left by `count` bits, for a count from 1 to 63.
pub open spec fn rotate_left(word: u64, count: u64) -> u64 {
    (word << count) | (word >> ((64 - count) as u64))
}

/// One round of SipHash.
pub open spec fn sip_round(state: SipState) -> SipState {
    let v0 = state.v0.wrapping_add(state.v1);
    let v1 = rotate_left(state.v1, 13) ^ v0;
    let v0 = rotate_left(v0, 32);
    let v2 = state.v2.wrapping_add(state.v3);
    let v3 = rotate_left(state.v3, 16) ^ v2;
    let v0 = v0.wrapping_add(v3);
    let v3 = rotate_left(v3, 21) ^ v0;
    let v2 = v2.wrapping_add(v1);
    let v1 = rotate_left(v1, 17) ^ v2;
    let v2 = rotate_left(v2, 32);
    SipState { v0, v1, v2, v3 }
}

/// The state after one word of the message: two rounds between two xors.
pub open spec fn absorb(state: SipState, word: u64) -> SipState {
    let mixed = sip_round(sip_round(SipState { v3: state.v3 ^ word, ..state }));
    SipState { v0: mixed.v0 ^ word, ..mixed }
}

/// The number that the bytes spell, least significant byte first.
pub open spec fn le_value(bytes: Seq<u8>) -> nat
    decreases bytes.len(),
{
    if bytes.len() == 0 {
        0
    } else {
        bytes[0] as nat + 256 * le_value(bytes.drop_first())
    }
}

/// The state after every whole word of eight bytes of the message.
pub open spec fn absorb_words(state: SipState, bytes: Seq<u8>) -> SipState
    decreases bytes.len(),
{
    if bytes.len() < 8 {
        state
    } else {
        absorb_words(absorb(state, le_value(bytes.take(8)) as u64), bytes.skip(8))
    }
}

/// The last word: the bytes after the whole words, with the length of the
/// message, modulo 256, as its most significant byte.
pub open spec fn last_word(bytes: Seq<u8>) -> u64 {
    (le_value(bytes.skip(bytes.len() - bytes.len() % 8)) + (bytes.len() % 256)
        * 0x100_0000_0000_0000) as u64
}

/// The state that SipHash starts from under the key zero.
pub open spec fn sip_start() -> SipState {
    SipState {
        v0: 0x736f_6d65_7073_6575,
        v1: 0x646f_7261_6e64_6f6d,
        v2: 0x6c79_6765_6e65_7261,
        v3: 0x7465_6462_7974_6573,
    }
}

/// SipHash-2-4 of a byte string under the key zero.
pub open spec fn sip_hash(bytes: Seq<u8>) -> u64 {
    let absorbed = absorb(absorb_words(sip_start(), bytes), last_word(bytes));
    let closed = sip_round(
        sip_round(sip_round(sip_round(SipState { v2: absorbed.v2 ^ 0xff, ..absorbed }))),
    );
    closed.v0 ^ closed.v1 ^ closed.v2 ^ closed.v3
}

/// `word`, rotated to the left by `count` bits.
fn rotated(word: u64, count: u64) -> (turned: u64)
    requires
        0 < count < 64,
    ensures
        turned == rotate_left(word, count),
{
    (word << count) | (word >> (64 - count))
}

/// One round of SipHash.
fn round(state: SipState) -> (mixed: SipState)
    ensures
        mixed == sip_round(state),
{
    let v0 = state.v0.wrapping_add(state.v1);
    let v1 = rotated(state.v1, 13) ^ v0;
    let v0 = rotated(v0, 32);
    let v2 = state.v2.wrapping_add(state.v3);
    let v3 = rotated(state.v3, 16) ^ v2;
    let v0 = v0.wrapping_add(v3);
    let v3 = rotated(v3, 21) ^ v0;
    let v2 = v2.wrapping_add(v1);
    let v1 = rotated(v1, 17) ^ v2;
    let v2 = rotated(v2, 32);
    SipState { v0, v1, v2, v3 }
}

/// Takes one word of the message into the state.
fn absorbed(state: SipState, word: u64) -> (mixed: SipState)
    ensures
        mixed == absorb(state, word),
{
    let mixed = round(round(SipState { v0: state.v0, v1: state.v1, v2: state.v2, v3: state.v3 ^ word }));
    SipState { v0: mixed.v0 ^ word, v1: mixed.v1, v2: mixed.v2, v3: mixed.v3 }
}

/// A number spelt by up to eight bytes is below 256 to the power of their
/// count.
proof fn lemma_le_value_bound(bytes: Seq<u8>)
    requires
        bytes.len() <= 8,
    ensures
        le_value(bytes) < pow2(8 * bytes.len()),
    decreases bytes.len(),
{
    lemma2_to64();
    if bytes.len() > 0 {
        lemma_le_value_bound(bytes.drop_first());
        lemma_pow2_adds(8, 8 * (bytes.len() - 1) as nat);
        assert(le_value(bytes) < pow2(8 * bytes.len())) by (nonlinear_arith)
            requires
                le_value(bytes) == bytes[0] as nat + 256 * le_value(bytes.drop_first()),
                bytes[0] < 256,
                le_value(bytes.drop_first()) < pow2(8 * (bytes.len() - 1) as nat),
                pow2(8 * bytes.len()) == 256 * pow2(8 * (bytes.len() - 1) as nat),
        ;
    }
}

/// The number that the bytes from `from` to `to` spell, least significant
/// byte first.
fn word_at(bytes: &[u8], from: usize, to: usize) -> (word: u64)
    requires
        from <= to <= bytes.len(),
        to - from <= 8,
    ensures
        word == le_value(bytes@.subrange(from as int, to as int)),
{
    let mut word: u64 = 0;
    let mut index: usize = to;
    while index > from
        invariant
            from <= index <= to <= bytes.len(),
            to - from <= 8,
            word == le_value(bytes@.subrange(index as int, to as int)),
        decreases index,
    {
        proof {
            lemma_le_value_bound(bytes@.subrange(index as int, to as int));
            lemma_le_value_bound(bytes@.subrange(index - 1, to as int));
            lemma2_to64();
            lemma2_to64_rest();
            assert(bytes@.subrange(index - 1, to as int).drop_first() =~= bytes@.subrange(
                index as int,
                to as int,
            ));
            assert(pow2(8 * (to - index + 1) as nat) <= pow2(64)) by {
                if to - index + 1 < 8 {
                    vstd::arithmetic::power2::lemma_pow2_strictly_increases(
                        8 * (to - index + 1) as nat,
                        64,
                    );
                }
            }
        }
        index = index - 1;
        word = word * 256 + bytes[index] as u64;
    }
    word
}

/// SipHash-2-4 of a byte string under the key zero.
pub fn hash_bytes(bytes: &[u8]) -> (hash: u64)
    ensures
        hash == sip_hash(bytes@),
{
    let mut state = SipState {
        v0: 0x736f_6d65_7073_6575,
        v1: 0x646f_7261_6e64_6f6d,
        v2: 0x6c79_6765_6e65_7261,
        v3: 0x7465_6462_7974_6573,
    };
    let whole: usize = bytes.len() - bytes.len() % 8;
    let mut index: usize = 0;
    assert(bytes@.skip(0) =~= bytes@);
    while index < whole
        invariant
            index <= whole <= bytes.len(),
            whole == bytes.len() - bytes.len() % 8,
            index % 8 == 0,
            absorb_words(sip_start(), bytes@) == absorb_words(state, bytes@.skip(index as int)),
        decreases whole - index,
    {
        let word = word_at(bytes, index, index + 8);
        assert(bytes@.skip(index as int).take(8) =~= bytes@.subrange(index as int, index + 8));
        assert(bytes@.skip(index as int).skip(8) =~= bytes@.skip(index + 8));
        state = absorbed(state, word);
        index = index + 8;
    }
    let tail = word_at(bytes, whole, bytes.len());
    proof {
        lemma_le_value_bound(bytes@.subrange(whole as int, bytes.len() as int));
        lemma2_to64_rest();
        if bytes.len() % 8 < 7 {
            vstd::arithmetic::power2::lemma_pow2_strictly_increases(
                8 * (bytes.len() % 8) as nat,
                56,
            );
        }
    }
    let length: u64 = (bytes.len() % 256) as u64;
    let last: u64 = tail + length * 0x100_0000_0000_0000;
    let mixed = absorbed(state, last);
    let closed = round(
        round(round(round(SipState { v0: mixed.v0, v1: mixed.v1, v2: mixed.v2 ^ 0xff, v3: mixed.v3 }))),
    );
    closed.v0 ^ closed.v1 ^ closed.v2 ^ closed.v3
}

/// Number of digits in a short hash: 64 bits in groups of five.
pub const SHORT_HASH_LEN: usize = 13;

/// The digit that stands for `value` in the alphabet `0`-`9`, `A`-`V`.
pub open spec fn digit_char(value: int) -> char {
    if value < 10 {
        (48 + value) as char
    } else {
        (55 + value) as char
    }
}

/// Byte `index` of `hash`, counted from the least significant one.
pub open spec fn le_byte(hash: u64, index: nat) -> nat {
    (hash as nat / pow2(8 * index)) % 256
}

/// The number whose big-endian bytes are the little-endian bytes of `hash`:
/// the bit string that the digits are cut from.
pub open spec fn bit_string(hash: u64) -> nat {
    le_byte(hash, 0) * pow2(56) + le_byte(hash, 1) * pow2(48) + le_byte(hash, 2) * pow2(40)
        + le_byte(hash, 3) * pow2(32) + le_byte(hash, 4) * pow2(24) + le_byte(hash, 5) * pow2(16)
        + le_byte(hash, 6) * pow2(8) + le_byte(hash, 7)
}

/// Group `index` of five bits, the first group being the most significant.
/// The bit string is padded with one zero bit to thirteen whole groups.
pub open spec fn group(hash: u64, index: int) -> int {
    ((2 * bit_string(hash)) / pow2((5 * (12 - index)) as nat)) as int % 32
}

/// The short hash of `hash`: thirteen digits, most significant group first.
pub open spec fn short_hash_text(hash: u64) -> Seq<char> {
    Seq::new(SHORT_HASH_LEN as nat, |index: int| digit_char(group(hash, index)))
}

/// Whether a character is a digit of the alphabet `0`-`9`, `A`-`V`.
pub open spec fn is_digit(c: char) -> bool {
    ('0' <= c && c <= '9') || ('A' <= c && c <= 'V')
}

/// A short hash has a fixed width and holds digits only: upper-case
/// letters and numerals, never a separator.
pub proof fn lemma_short_hash_shape(hash: u64)
    ensures
        short_hash_text(hash).len() == SHORT_HASH_LEN,
        forall|index: int|
            0 <= index < SHORT_HASH_LEN ==> is_digit(#[trigger] short_hash_text(hash)[index]),
{
    assert forall|index: int| 0 <= index < SHORT_HASH_LEN implies is_digit(
        #[trigger] short_hash_text(hash)[index],
    ) by {
        assert(0 <= group(hash, index) < 32);
    }
}

/// The bit string of `hash`, computed byte by byte.
fn swap_bytes(hash: u64) -> (swapped: u64)
    ensures
        swapped == bit_string(hash),
{
    proof {
        lemma2_to64();
        lemma2_to64_rest();
    }
    let b0: u64 = hash % 256;
    assert(b0 == le_byte(hash, 0)) by {
        assert(hash as nat / 1 == hash);
    }
    let b1: u64 = (hash / 0x100) % 256;
    let b2: u64 = (hash / 0x1_0000) % 256;
    let b3: u64 = (hash / 0x100_0000) % 256;
    let b4: u64 = (hash / 0x1_0000_0000) % 256;
    let b5: u64 = (hash / 0x100_0000_0000) % 256;
    let b6: u64 = (hash / 0x1_0000_0000_0000) % 256;
    let b7: u64 = (hash / 0x100_0000_0000_0000) % 256;
    assert(bit_string(hash) == b0 * 0x100_0000_0000_0000 + b1 * 0x1_0000_0000_0000 + b2
        * 0x100_0000_0000 + b3 * 0x1_0000_0000 + b4 * 0x100_0000 + b5 * 0x1_0000 + b6 * 0x100 + b7)
        by (nonlinear_arith)
        requires
            b0 == le_byte(hash, 0),
            b1 == le_byte(hash, 1),
            b2 == le_byte(hash, 2),
            b3 == le_byte(hash, 3),
            b4 == le_byte(hash, 4),
            b5 == le_byte(hash, 5),
            b6 == le_byte(hash, 6),
            b7 == le_byte(hash, 7),
            pow2(56) == 0x100_0000_0000_0000,
            pow2(48) == 0x1_0000_0000_0000,
            pow2(40) == 0x100_0000_0000,
            pow2(32) == 0x1_0000_0000,
            pow2(24) == 0x100_0000,
            pow2(16) == 0x1_0000,
            pow2(8) == 0x100,
    ;
    b0 * 0x100_0000_0000_0000 + b1 * 0x1_0000_0000_0000 + b2 * 0x100_0000_0000 + b3
        * 0x1_0000_0000 + b4 * 0x100_0000 + b5 * 0x1_0000 + b6 * 0x100 + b7
}

/// Renders a 64-bit hash as thirteen digits of the alphabet `0`-`9`, `A`-`V`.
pub fn encode_hash(hash: u64) -> (text: String)
    ensures
        text@ == short_hash_text(hash),
{
    let padded: u128 = 2 * (swap_bytes(hash) as u128);
    let mut text = String::new();
    let mut divisor: u128 = 0x1000_0000_0000_0000;
    let mut index: usize = 0;
    proof {
        lemma2_to64_rest();
    }
    while index < SHORT_HASH_LEN
        invariant
            index <= SHORT_HASH_LEN,
            padded == 2 * bit_string(hash),
            index < SHORT_HASH_LEN ==> divisor == pow2((5 * (12 - index)) as nat),
            text@ == short_hash_text(hash).take(index as int),
        decreases SHORT_HASH_LEN - index,
    {
        proof {
            lemma_pow2_pos((5 * (12 - index)) as nat);
        }
        let value: u128 = (padded / divisor) % 32;
        let digit: char = if value < 10 {
            (48 + value as u8) as char
        } else {
            (55 + value as u8) as char
        };
        push_char(&mut text, digit);
        proof {
            if index + 1 < SHORT_HASH_LEN {
                lemma2_to64();
                lemma_pow2_adds(5, (5 * (11 - index)) as nat);
            }
        }
        divisor = divisor / 32;
        index = index + 1;
    }
    text
}

/// What is hashed for a text: its UTF-8 bytes and a closing `0xff`.
pub open spec fn hash_input(text: Seq<char>) -> Seq<u8> {
    vstd::utf8::encode_utf8(text).push(0xffu8)
}

/// The short hash of a text.
pub open spec fn short_hash_of(text: Seq<char>) -> Seq<char> {
    short_hash_text(sip_hash(hash_input(text)))
}

/// The short hash of `text`: the SipHash of its bytes in thirteen digits.
pub fn short_hash(text: &str) -> (hash: String)
    ensures
        hash@ == short_hash_of(text@),
{
    let mut input = text.as_bytes_vec();
    input.push(0xff);
    encode_hash(hash_bytes(input.as_slice()))
}

} // verus!
