//! Byte-level encoding of 32-bit words.
//!
//! Device buffers hold raw bytes while the kernels operate on 32-bit words,
//! so every transfer between host values and buffer contents goes through
//! this little-endian codec.  The result reader reinterprets a buffer's
//! bytes through the same functions.

use vstd::prelude::*;

verus! {

/// The word denoted by four bytes, least significant first.
pub open spec fn word_of_bytes(b0: u8, b1: u8, b2: u8, b3: u8) -> u32 {
    (b0 + b1 * 0x100 + b2 * 0x1_0000 + b3 * 0x100_0000) as u32
}

/// Byte `k` (0 = least significant) of a word; positions past the third
/// take the most significant byte.
pub open spec fn byte_of_word(w: u32, k: int) -> u8 {
    if k <= 0 {
        ((w as int) % 0x100) as u8
    } else if k == 1 {
        (((w as int) / 0x100) % 0x100) as u8
    } else if k == 2 {
        (((w as int) / 0x1_0000) % 0x100) as u8
    } else {
        (((w as int) / 0x100_0000) % 0x100) as u8
    }
}

/// The word sequence denoted by a byte sequence; a trailing fragment of
/// fewer than four bytes denotes no word.
pub open spec fn words_of_bytes(bs: Seq<u8>) -> Seq<u32> {
    Seq::new(bs.len() / 4, |i: int| word_of_bytes(bs[4 * i], bs[4 * i + 1], bs[4 * i + 2], bs[4 * i + 3]))
}

/// The byte sequence denoting a word sequence, each word little-endian.
pub open spec fn bytes_of_words(ws: Seq<u32>) -> Seq<u8> {
    Seq::new(ws.len() * 4, |i: int| byte_of_word(ws[i / 4], i % 4))
}

/// Every word survives a round trip through its byte encoding.
pub proof fn lemma_word_bytes_roundtrip(w: u32)
    ensures
        word_of_bytes(byte_of_word(w, 0), byte_of_word(w, 1), byte_of_word(w, 2), byte_of_word(w, 3)) == w,
{
}

/// One word of an encoded sequence decodes to the original word.
proof fn lemma_words_of_bytes_index(ws: Seq<u32>, i: int)
    requires
        0 <= i < ws.len(),
    ensures
        words_of_bytes(bytes_of_words(ws))[i] == ws[i],
{
    let bs = bytes_of_words(ws);
    assert((4 * i) / 4 == i && (4 * i) % 4 == 0) by (nonlinear_arith)
        requires
            0 <= i,
    ;
    assert((4 * i + 1) / 4 == i && (4 * i + 1) % 4 == 1) by (nonlinear_arith)
        requires
            0 <= i,
    ;
    assert((4 * i + 2) / 4 == i && (4 * i + 2) % 4 == 2) by (nonlinear_arith)
        requires
            0 <= i,
    ;
    assert((4 * i + 3) / 4 == i && (4 * i + 3) % 4 == 3) by (nonlinear_arith)
        requires
            0 <= i,
    ;
    assert(bs[4 * i] == byte_of_word(ws[i], 0));
    assert(bs[4 * i + 1] == byte_of_word(ws[i], 1));
    assert(bs[4 * i + 2] == byte_of_word(ws[i], 2));
    assert(bs[4 * i + 3] == byte_of_word(ws[i], 3));
    lemma_word_bytes_roundtrip(ws[i]);
}

/// Encoding a word sequence and decoding the bytes yields the words back.
pub proof fn lemma_words_bytes_roundtrip(ws: Seq<u32>)
    ensures
        words_of_bytes(bytes_of_words(ws)) == ws,
{
    let bs = bytes_of_words(ws);
    assert((ws.len() * 4) as int / 4 == ws.len()) by (nonlinear_arith);
    assert forall|i: int| 0 <= i < ws.len() implies words_of_bytes(bs)[i] == ws[i] by {
        lemma_words_of_bytes_index(ws, i);
    }
    assert(words_of_bytes(bs) =~= ws);
}

/// Encodes a word sequence as its little-endian bytes.
pub fn encode_words(ws: &Vec<u32>) -> (r: Vec<u8>)
    ensures
        r@ == bytes_of_words(ws@),
{
    let mut out: Vec<u8> = Vec::new();
    let mut i: usize = 0;
    while i < ws.len()
        invariant
            i <= ws@.len(),
            out@ =~= bytes_of_words(ws@.take(i as int)),
        decreases ws@.len() - i,
    {
        let w = ws[i];
        out.push((w % 0x100) as u8);
        out.push(((w / 0x100) % 0x100) as u8);
        out.push(((w / 0x1_0000) % 0x100) as u8);
        out.push(((w / 0x100_0000) % 0x100) as u8);
        proof {
            assert(out@ =~= bytes_of_words(ws@.take(i + 1)));
        }
        i = i + 1;
    }
    proof {
        assert(ws@.take(ws@.len() as int) =~= ws@);
    }
    out
}

/// Decodes the first `count` words held by a byte sequence.
pub fn decode_words(bs: &Vec<u8>, count: usize) -> (r: Vec<u32>)
    requires
        4 * count <= bs@.len(),
    ensures
        r@.len() == count,
        forall|i: int| 0 <= i < count ==> r@[i] == words_of_bytes(bs@)[i],
{
    let mut out: Vec<u32> = Vec::new();
    let total: usize = bs.len();
    let mut i: usize = 0;
    while i < count
        invariant
            i <= count,
            4 * count <= bs@.len(),
            bs@.len() == total,
            out@.len() == i,
            forall|j: int| 0 <= j < i ==> out@[j] == words_of_bytes(bs@)[j],
        decreases count - i,
    {
        let b0 = bs[4 * i] as u32;
        let b1 = bs[4 * i + 1] as u32;
        let b2 = bs[4 * i + 2] as u32;
        let b3 = bs[4 * i + 3] as u32;
        let w = b0 + b1 * 0x100 + b2 * 0x1_0000 + b3 * 0x100_0000;
        proof {
            assert(w == word_of_bytes(bs@[4 * i], bs@[4 * i + 1], bs@[4 * i + 2], bs@[4 * i + 3]));
        }
        out.push(w);
        i = i + 1;
    }
    out
}

} // verus!
