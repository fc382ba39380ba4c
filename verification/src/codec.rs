//! The program binary format: a flat byte stream of consecutive
//! little-endian 16-bit words, and its round trip with word sequences.

use vstd::prelude::*;

verus! {

/// The word encoded by a little-endian byte pair.
pub open spec fn word_of(lo: u8, hi: u8) -> u16 {
    (lo + 256 * hi) as u16
}

/// The words read from a byte stream, two bytes at a time; an odd
/// trailing byte is ignored.
pub open spec fn words_of_bytes(bytes: Seq<u8>) -> Seq<u16> {
    Seq::new((bytes.len() / 2) as nat, |i: int| word_of(bytes[2 * i], bytes[2 * i + 1]))
}

/// The little-endian byte stream of a word sequence.
pub open spec fn bytes_of_words(words: Seq<u16>) -> Seq<u8> {
    Seq::new(
        (words.len() * 2) as nat,
        |i: int|
            if i % 2 == 0 {
                (words[i / 2] % 256) as u8
            } else {
                (words[i / 2] / 256) as u8
            },
    )
}

/// Reads a program image: every little-endian byte pair becomes one
/// word, in order; an odd trailing byte is ignored.
pub fn decode_program(bytes: &Vec<u8>) -> (r: Vec<u16>)
    ensures
        r@ == words_of_bytes(bytes@),
{
    let n = bytes.len() / 2;
    let mut r: Vec<u16> = Vec::new();
    let mut w: usize = 0;
    while w < n
        invariant
            w <= n,
            n <= usize::MAX / 2,
            n == bytes@.len() / 2,
            r@.len() == w,
            forall|j: int| 0 <= j < w ==> r@[j] == words_of_bytes(bytes@)[j],
        decreases n - w,
    {
        let lo = bytes[2 * w];
        let hi = bytes[2 * w + 1];
        r.push(lo as u16 + 256 * (hi as u16));
        w = w + 1;
    }
    proof {
        assert(r@ =~= words_of_bytes(bytes@));
    }
    r
}

/// Writes a program image: each word becomes its little-endian byte
/// pair, in order.
pub fn encode_program(words: &Vec<u16>) -> (r: Vec<u8>)
    requires
        words@.len() <= 32768,
    ensures
        r@ == bytes_of_words(words@),
{
    let mut r: Vec<u8> = Vec::new();
    let mut w: usize = 0;
    while w < words.len()
        invariant
            w <= words@.len(),
            words@.len() <= 32768,
            r@.len() == 2 * w,
            forall|j: int| 0 <= j < 2 * w ==> r@[j] == bytes_of_words(words@)[j],
        decreases words@.len() - w,
    {
        let v = words[w];
        r.push((v % 256) as u8);
        r.push((v / 256) as u8);
        w = w + 1;
    }
    proof {
        assert(r@ =~= bytes_of_words(words@));
    }
    r
}

/// Round trip: reading back the little-endian encoding of any word
/// sequence yields that same sequence.
pub proof fn lemma_round_trip(words: Seq<u16>)
    ensures
        words_of_bytes(bytes_of_words(words)) == words,
{
    let bs = bytes_of_words(words);
    assert forall|i: int| 0 <= i < words.len() implies words_of_bytes(bs)[i] == words[i] by {
        assert(bs[2 * i] == (words[i] % 256) as u8);
        assert(bs[2 * i + 1] == (words[i] / 256) as u8);
        assert(words[i] % 256 + 256 * (words[i] / 256) == words[i]) by {
            vstd::arithmetic::div_mod::lemma_fundamental_div_mod(words[i] as int, 256);
        };
    };
    assert(words_of_bytes(bs) =~= words);
}

} // verus!
