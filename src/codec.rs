//! Little-endian conversion between a 64-byte block and its sixteen words.
use vstd::prelude::*;

verus! {

/// The word whose little-endian bytes are `b0, b1, b2, b3`.
pub open spec fn word_le(b0: u8, b1: u8, b2: u8, b3: u8) -> u32 {
    (b0 + 0x100 * b1 + 0x1_0000 * b2 + 0x100_0000 * b3) as u32
}

/// Byte `j` (`0 <= j < 4`) of `x`, least significant first.
pub open spec fn byte_le(x: u32, j: int) -> u8 {
    if j == 0 {
        (x % 0x100) as u8
    } else if j == 1 {
        (x / 0x100 % 0x100) as u8
    } else if j == 2 {
        (x / 0x1_0000 % 0x100) as u8
    } else {
        (x / 0x100_0000) as u8
    }
}

/// The sixteen words of a 64-byte block, each read from four bytes little-endian.
pub open spec fn decode(b: Seq<u8>) -> Seq<u32> {
    Seq::new(16, |i: int| word_le(b[4 * i], b[4 * i + 1], b[4 * i + 2], b[4 * i + 3]))
}

/// The 64 bytes of sixteen words, each written as four bytes little-endian.
pub open spec fn encode(w: Seq<u32>) -> Seq<u8> {
    Seq::new(64, |j: int| byte_le(w[j / 4], j % 4))
}

proof fn lemma_bytes_of_word(b0: u8, b1: u8, b2: u8, b3: u8)
    ensures
        byte_le(word_le(b0, b1, b2, b3), 0) == b0,
        byte_le(word_le(b0, b1, b2, b3), 1) == b1,
        byte_le(word_le(b0, b1, b2, b3), 2) == b2,
        byte_le(word_le(b0, b1, b2, b3), 3) == b3,
{
    assert(((b0 + 0x100 * b1 + 0x1_0000 * b2 + 0x100_0000 * b3) as u32 % 0x100) as u8 == b0)
        by (bit_vector);
    assert(((b0 + 0x100 * b1 + 0x1_0000 * b2 + 0x100_0000 * b3) as u32 / 0x100 % 0x100) as u8
        == b1) by (bit_vector);
    assert(((b0 + 0x100 * b1 + 0x1_0000 * b2 + 0x100_0000 * b3) as u32 / 0x1_0000 % 0x100) as u8
        == b2) by (bit_vector);
    assert(((b0 + 0x100 * b1 + 0x1_0000 * b2 + 0x100_0000 * b3) as u32 / 0x100_0000) as u8 == b3)
        by (bit_vector);
}

proof fn lemma_word_of_bytes(x: u32)
    ensures
        word_le(byte_le(x, 0), byte_le(x, 1), byte_le(x, 2), byte_le(x, 3)) == x,
{
    assert(((x % 0x100) as u8 + 0x100 * (x / 0x100 % 0x100) as u8 + 0x1_0000 * (x / 0x1_0000
        % 0x100) as u8 + 0x100_0000 * (x / 0x100_0000) as u8) as u32 == x) by (bit_vector);
}

/// Encoding the decoded words of a 64-byte block gives back the block.
pub proof fn lemma_encode_decode(b: Seq<u8>)
    requires
        b.len() == 64,
    ensures
        encode(decode(b)) == b,
{
    assert forall|j: int| 0 <= j < 64 implies #[trigger] encode(decode(b))[j] == b[j] by {
        let i = j / 4;
        lemma_bytes_of_word(b[4 * i], b[4 * i + 1], b[4 * i + 2], b[4 * i + 3]);
    }
    assert(encode(decode(b)) =~= b);
}

/// Decoding the encoded bytes of sixteen words gives back the words.
pub proof fn lemma_decode_encode(w: Seq<u32>)
    requires
        w.len() == 16,
    ensures
        decode(encode(w)) == w,
{
    assert forall|i: int| 0 <= i < 16 implies #[trigger] decode(encode(w))[i] == w[i] by {
        lemma_word_of_bytes(w[i]);
    }
    assert(decode(encode(w)) =~= w);
}

/// Reads the word stored little-endian at `xs[at..at + 4]`.
fn read_u32_le(xs: &[u8; 64], at: usize) -> (r: u32)
    requires
        at + 4 <= 64,
    ensures
        r == word_le(xs@[at as int], xs@[at + 1], xs@[at + 2], xs@[at + 3]),
{
    let b0 = xs[at];
    let b1 = xs[at + 1];
    let b2 = xs[at + 2];
    let b3 = xs[at + 3];
    let r = ((b0 as u32) << 0u32) | ((b1 as u32) << 8u32) | ((b2 as u32) << 16u32) | ((b3 as u32)
        << 24u32);
    assert(r == word_le(b0, b1, b2, b3)) by (bit_vector)
        requires
            r == ((b0 as u32) << 0u32) | ((b1 as u32) << 8u32) | ((b2 as u32) << 16u32) | ((
            b3 as u32) << 24u32),
    ;
    r
}

/// Stores `x` little-endian at `dest[at..at + 4]`, leaving the other bytes alone.
fn write_u32_le(dest: &mut [u8; 64], at: usize, x: u32)
    requires
        at + 4 <= 64,
    ensures
        forall|j: int|
            0 <= j < 64 ==> #[trigger] final(dest)@[j] == if at <= j < at + 4 {
                byte_le(x, j - at)
            } else {
                old(dest)@[j]
            },
{
    assert((x >> 0u32) as u8 == byte_le(x, 0)) by (bit_vector);
    assert((x >> 8u32) as u8 == byte_le(x, 1)) by (bit_vector);
    assert((x >> 16u32) as u8 == byte_le(x, 2)) by (bit_vector);
    assert((x >> 24u32) as u8 == byte_le(x, 3)) by (bit_vector);
    dest[at] = (x >> 0u32) as u8;
    dest[at + 1] = (x >> 8u32) as u8;
    dest[at + 2] = (x >> 16u32) as u8;
    dest[at + 3] = (x >> 24u32) as u8;
}

/// The sixteen words of a 64-byte block, read little-endian.
pub fn decode_block(bytes: &[u8; 64]) -> (r: [u32; 16])
    ensures
        r@ == decode(bytes@),
{
    let mut out = [0u32; 16];
    let mut i: usize = 0;
    while i < 16
        invariant
            i <= 16,
            forall|j: int| 0 <= j < i ==> #[trigger] out@[j] == decode(bytes@)[j],
        decreases 16 - i,
    {
        out[i] = read_u32_le(bytes, 4 * i);
        i = i + 1;
    }
    assert(out@ =~= decode(bytes@));
    out
}

/// The 64 bytes of sixteen words, written little-endian.
pub fn encode_block(words: &[u32; 16]) -> (r: [u8; 64])
    ensures
        r@ == encode(words@),
{
    let mut out = [0u8; 64];
    let mut i: usize = 0;
    while i < 16
        invariant
            i <= 16,
            forall|j: int| 0 <= j < 4 * i ==> #[trigger] out@[j] == encode(words@)[j],
        decreases 16 - i,
    {
        write_u32_le(&mut out, 4 * i, words[i]);
        i = i + 1;
    }
    assert(out@ =~= encode(words@));
    out
}

} // verus!
