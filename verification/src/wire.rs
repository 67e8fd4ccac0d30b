//! Fixed-width framing: 32-bit little-endian words and length-prefixed byte
//! strings, with the laws that make every frame readable back.

use vstd::prelude::*;

verus! {

/// The four bytes of a word, least significant first.
pub open spec fn word_bytes(x: u32) -> Seq<u8> {
    seq![
        (x % 256) as u8,
        (x / 256 % 256) as u8,
        (x / 65536 % 256) as u8,
        (x / 16777216) as u8,
    ]
}

/// The word whose little-endian bytes are the first four of `s`.
pub open spec fn word_of(s: Seq<u8>) -> u32
    recommends
        s.len() >= 4,
{
    (s[0] + 256 * s[1] + 65536 * s[2] + 16777216 * s[3]) as u32
}

/// A signed 32-bit value as the word with the same two's-complement bits.
pub open spec fn signed_bits(x: i32) -> u32 {
    if x >= 0 {
        x as u32
    } else {
        (x + 0x1_0000_0000) as u32
    }
}

/// The signed value with the two's-complement bits of `w`.
pub open spec fn bits_signed(w: u32) -> i32 {
    if w < 0x8000_0000 {
        w as i32
    } else {
        (w - 0x1_0000_0000) as i32
    }
}

/// A byte string framed as its length and then its bytes.
pub open spec fn framed(data: Seq<u8>) -> Seq<u8>
    recommends
        data.len() <= u32::MAX,
{
    word_bytes(data.len() as u32) + data
}

/// Reading a word back from its bytes gives the word, whatever follows.
pub proof fn lemma_word_round_trip(x: u32, rest: Seq<u8>)
    ensures
        word_bytes(x).len() == 4,
        word_of(word_bytes(x) + rest) == x,
        (word_bytes(x) + rest).skip(4) =~= rest,
{
    let s = word_bytes(x) + rest;
    assert(s[0] == word_bytes(x)[0]);
    assert(s[1] == word_bytes(x)[1]);
    assert(s[2] == word_bytes(x)[2]);
    assert(s[3] == word_bytes(x)[3]);
}

/// The base-256 digits of a number below 2^32 are its four bytes.
proof fn lemma_digits(a: int, b: int, c: int, d: int)
    requires
        0 <= a < 256,
        0 <= b < 256,
        0 <= c < 256,
        0 <= d < 256,
    ensures
        0 <= a + 256 * b + 65536 * c + 16777216 * d < 0x1_0000_0000,
        (a + 256 * b + 65536 * c + 16777216 * d) % 256 == a,
        (a + 256 * b + 65536 * c + 16777216 * d) / 256 % 256 == b,
        (a + 256 * b + 65536 * c + 16777216 * d) / 65536 % 256 == c,
        (a + 256 * b + 65536 * c + 16777216 * d) / 16777216 == d,
{
    let x = a + 256 * b + 65536 * c + 16777216 * d;
    assert(x / 256 == b + 256 * c + 65536 * d);
    assert(x / 65536 == c + 256 * d);
    assert(x / 16777216 == d);
}

/// Three words in a row are read back one by one, whatever follows them.
pub proof fn lemma_three_words(a: u32, b: u32, c: u32, rest: Seq<u8>)
    ensures
        ({
            let s = word_bytes(a) + word_bytes(b) + word_bytes(c) + rest;
            &&& s.len() == 12 + rest.len()
            &&& word_of(s) == a
            &&& word_of(s.skip(4)) == b
            &&& word_of(s.skip(8)) == c
            &&& s.skip(12) =~= rest
        }),
{
    let s = word_bytes(a) + word_bytes(b) + word_bytes(c) + rest;
    lemma_word_round_trip(a, word_bytes(b) + word_bytes(c) + rest);
    assert(s =~= word_bytes(a) + (word_bytes(b) + word_bytes(c) + rest));
    lemma_word_round_trip(b, word_bytes(c) + rest);
    assert(s.skip(4) =~= word_bytes(b) + (word_bytes(c) + rest));
    lemma_word_round_trip(c, rest);
    assert(s.skip(8) =~= word_bytes(c) + rest);
}

/// Twelve bytes are the bytes of the three words read from them.
pub proof fn lemma_three_words_of(s: Seq<u8>)
    requires
        s.len() >= 12,
    ensures
        word_bytes(word_of(s)) + word_bytes(word_of(s.skip(4))) + word_bytes(word_of(s.skip(8)))
            =~= s.take(12),
{
    lemma_word_bytes_of(s);
    lemma_word_bytes_of(s.skip(4));
    lemma_word_bytes_of(s.skip(8));
    assert(s.skip(4).take(4) =~= s.subrange(4, 8));
    assert(s.skip(8).take(4) =~= s.subrange(8, 12));
    assert(s.take(4) + s.subrange(4, 8) + s.subrange(8, 12) =~= s.take(12));
}

/// Four bytes are the bytes of the word read from them.
pub proof fn lemma_word_bytes_of(s: Seq<u8>)
    requires
        s.len() >= 4,
    ensures
        word_bytes(word_of(s)) =~= s.take(4),
{
    lemma_digits(s[0] as int, s[1] as int, s[2] as int, s[3] as int);
}

/// A signed value survives the trip through its bits, and so does a word.
pub proof fn lemma_signed_round_trip(x: i32, w: u32)
    ensures
        bits_signed(signed_bits(x)) == x,
        signed_bits(bits_signed(w)) == w,
{
}

/// Appends the little-endian bytes of `x`.
pub fn put_word(out: &mut Vec<u8>, x: u32)
    ensures
        final(out)@ == old(out)@ + word_bytes(x),
{
    out.push((x % 256) as u8);
    out.push((x / 256 % 256) as u8);
    out.push((x / 65536 % 256) as u8);
    out.push((x / 16777216) as u8);
    assert(out@ =~= old(out)@ + word_bytes(x));
}

/// Reads the word that starts at `at`.
pub fn get_word(input: &[u8], at: usize) -> (x: u32)
    requires
        at + 4 <= input@.len(),
    ensures
        x == word_of(input@.skip(at as int)),
{
    let b0: u32 = input[at] as u32;
    let b1: u32 = input[at + 1] as u32;
    let b2: u32 = input[at + 2] as u32;
    let b3: u32 = input[at + 3] as u32;
    b0 + 256 * b1 + 65536 * b2 + 16777216 * b3
}

/// The word that carries a signed value.
pub fn to_bits(x: i32) -> (w: u32)
    ensures
        w == signed_bits(x),
{
    if x >= 0 {
        x as u32
    } else {
        (x as i64 + 0x1_0000_0000) as u32
    }
}

/// The signed value that a word carries.
pub fn from_bits(w: u32) -> (x: i32)
    ensures
        x == bits_signed(w),
{
    if w < 0x8000_0000 {
        w as i32
    } else {
        (w as i64 - 0x1_0000_0000) as i32
    }
}

/// Appends every byte of `data`.
pub fn put_bytes(out: &mut Vec<u8>, data: &[u8])
    ensures
        final(out)@ == old(out)@ + data@,
{
    let mut i: usize = 0;
    while i < data.len()
        invariant
            i <= data@.len(),
            out@ == old(out)@ + data@.take(i as int),
        decreases data@.len() - i,
    {
        out.push(data[i]);
        i += 1;
        assert(out@ =~= old(out)@ + data@.take(i as int));
    }
    assert(data@.take(i as int) =~= data@);
}

/// Copies the bytes from `from` up to `to` into a vector of their own.
pub fn copy_range(input: &[u8], from: usize, to: usize) -> (out: Vec<u8>)
    requires
        from <= to <= input@.len(),
    ensures
        out@ == input@.subrange(from as int, to as int),
{
    let mut out: Vec<u8> = Vec::new();
    let mut i: usize = from;
    while i < to
        invariant
            from <= i <= to <= input@.len(),
            out@ == input@.subrange(from as int, i as int),
        decreases to - i,
    {
        out.push(input[i]);
        i += 1;
        assert(out@ =~= input@.subrange(from as int, i as int));
    }
    out
}

} // verus!
