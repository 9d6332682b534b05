//! Mathematical model of the MD5 message digest.
//!
//! Everything here is specification-level: `md5_hex` maps an arbitrary byte
//! sequence to the 32 lowercase hex characters of its MD5 digest, built from
//! the round tables, the per-round mixing step, block compression, and the
//! padding rule.

use vstd::prelude::*;
use vstd::bytes::{spec_u32_from_le_bytes, spec_u32_to_le_bytes, spec_u64_to_le_bytes};

verus! {

/// Per-round additive constants of MD5 (the integer parts of
/// `abs(sin(i + 1)) * 2^32`, fixed by the algorithm).
pub const MD5_K: [u32; 64] = [
    0xd76aa478, 0xe8c7b756, 0x242070db, 0xc1bdceee, 0xf57c0faf, 0x4787c62a, 0xa8304613, 0xfd469501,
    0x698098d8, 0x8b44f7af, 0xffff5bb1, 0x895cd7be, 0x6b901122, 0xfd987193, 0xa679438e, 0x49b40821,
    0xf61e2562, 0xc040b340, 0x265e5a51, 0xe9b6c7aa, 0xd62f105d, 0x02441453, 0xd8a1e681, 0xe7d3fbc8,
    0x21e1cde6, 0xc33707d6, 0xf4d50d87, 0x455a14ed, 0xa9e3e905, 0xfcefa3f8, 0x676f02d9, 0x8d2a4c8a,
    0xfffa3942, 0x8771f681, 0x6d9d6122, 0xfde5380c, 0xa4beea44, 0x4bdecfa9, 0xf6bb4b60, 0xbebfbc70,
    0x289b7ec6, 0xeaa127fa, 0xd4ef3085, 0x04881d05, 0xd9d4d039, 0xe6db99e5, 0x1fa27cf8, 0xc4ac5665,
    0xf4292244, 0x432aff97, 0xab9423a7, 0xfc93a039, 0x655b59c3, 0x8f0ccc92, 0xffeff47d, 0x85845dd1,
    0x6fa87e4f, 0xfe2ce6e0, 0xa3014314, 0x4e0811a1, 0xf7537e82, 0xbd3af235, 0x2ad7d2bb, 0xeb86d391,
];

/// Per-round left-rotation amounts of MD5.
pub const MD5_SHIFTS: [u32; 64] = [
    7, 12, 17, 22, 7, 12, 17, 22, 7, 12, 17, 22, 7, 12, 17, 22,
    5, 9, 14, 20, 5, 9, 14, 20, 5, 9, 14, 20, 5, 9, 14, 20,
    4, 11, 16, 23, 4, 11, 16, 23, 4, 11, 16, 23, 4, 11, 16, 23,
    6, 10, 15, 21, 6, 10, 15, 21, 6, 10, 15, 21, 6, 10, 15, 21,
];

/// Left rotation of a 32-bit word by `n` places, `0 < n < 32`.
pub open spec fn rotl(x: u32, n: u32) -> u32
    recommends
        0 < n < 32,
{
    (x << n) | (x >> ((32u32 - n) as u32))
}

/// The nonlinear mixing function of round `i`.
pub open spec fn md5_f(i: int, b: u32, c: u32, d: u32) -> u32
    recommends
        0 <= i < 64,
{
    if i < 16 {
        (b & c) | (!b & d)
    } else if i < 32 {
        (d & b) | (!d & c)
    } else if i < 48 {
        b ^ c ^ d
    } else {
        c ^ (b | !d)
    }
}

/// The message-word index consumed by round `i`.
pub open spec fn md5_g(i: int) -> int
    recommends
        0 <= i < 64,
{
    if i < 16 {
        i
    } else if i < 32 {
        (5 * i + 1) % 16
    } else if i < 48 {
        (3 * i + 5) % 16
    } else {
        (7 * i) % 16
    }
}

/// One MD5 round applied to the working state `(a, b, c, d)`, reading
/// message word `md5_g(i)` of the current block.
pub open spec fn md5_step(s: (u32, u32, u32, u32), m: Seq<u32>, i: int) -> (u32, u32, u32, u32)
    recommends
        0 <= i < 64,
        m.len() == 16,
{
    let f = md5_f(i, s.1, s.2, s.3)
        .wrapping_add(s.0)
        .wrapping_add(MD5_K[i])
        .wrapping_add(m[md5_g(i)]);
    (s.3, s.1.wrapping_add(rotl(f, MD5_SHIFTS[i])), s.1, s.2)
}

/// Rounds `0, 1, ..., n - 1` applied in order.
pub open spec fn md5_rounds(s: (u32, u32, u32, u32), m: Seq<u32>, n: int) -> (u32, u32, u32, u32)
    recommends
        0 <= n <= 64,
        m.len() == 16,
    decreases n,
{
    if n <= 0 {
        s
    } else {
        md5_step(md5_rounds(s, m, n - 1), m, n - 1)
    }
}

/// Full compression of one sixteen-word block: 64 rounds followed by the
/// wrapping addition of the pre-round state.
pub open spec fn md5_compress(s: (u32, u32, u32, u32), m: Seq<u32>) -> (u32, u32, u32, u32)
    recommends
        m.len() == 16,
{
    let r = md5_rounds(s, m, 64);
    (
        s.0.wrapping_add(r.0),
        s.1.wrapping_add(r.1),
        s.2.wrapping_add(r.2),
        s.3.wrapping_add(r.3),
    )
}

/// The sixteen 32-bit words of a 64-byte block, each decoded little-endian.
pub open spec fn block_words(block: Seq<u8>) -> Seq<u32>
    recommends
        block.len() == 64,
{
    Seq::new(16, |w: int| spec_u32_from_le_bytes(block.subrange(4 * w, 4 * w + 4)))
}

/// The fixed initial state of MD5.
pub open spec fn md5_init() -> (u32, u32, u32, u32) {
    (0x67452301u32, 0xefcdab89u32, 0x98badcfeu32, 0x10325476u32)
}

/// Compress every consecutive 64-byte block of `bytes` in order, starting
/// from state `s`. A trailing fragment shorter than a block is ignored, so
/// on block-aligned input this consumes everything.
pub open spec fn process_blocks(s: (u32, u32, u32, u32), bytes: Seq<u8>) -> (u32, u32, u32, u32)
    decreases bytes.len(),
{
    if bytes.len() < 64 {
        s
    } else {
        process_blocks(md5_compress(s, block_words(bytes.take(64))), bytes.skip(64))
    }
}

/// An all-zero byte sequence of length `n`.
pub open spec fn zeros(n: nat) -> Seq<u8> {
    Seq::new(n, |i: int| 0u8)
}

/// Number of zero bytes between the `0x80` marker and the 8-byte length
/// field, chosen so the padded message length is a multiple of 64.
pub open spec fn pad_zero_count(len: nat) -> nat {
    if len % 64 < 56 {
        (55 - len % 64) as nat
    } else {
        (119 - len % 64) as nat
    }
}

/// The total message bit length reduced to 64 bits, as the padding rule
/// stores it.
pub open spec fn length_bits(len: nat) -> u64 {
    ((len * 8) % 0x1_0000_0000_0000_0000) as u64
}

/// MD5 padding: the message, a single `0x80`, enough zeros to reach 56
/// modulo 64, then the message bit length as eight little-endian bytes.
pub open spec fn md5_pad(msg: Seq<u8>) -> Seq<u8> {
    msg + seq![0x80u8] + zeros(pad_zero_count(msg.len()))
        + spec_u64_to_le_bytes(length_bits(msg.len()))
}

/// The four final state words of the MD5 computation over `msg`.
pub open spec fn md5_words(msg: Seq<u8>) -> (u32, u32, u32, u32) {
    process_blocks(md5_init(), md5_pad(msg))
}

/// The 16-byte MD5 digest of `msg`: the four state words, each rendered
/// little-endian.
pub open spec fn md5_digest_bytes(msg: Seq<u8>) -> Seq<u8> {
    let s = md5_words(msg);
    spec_u32_to_le_bytes(s.0) + spec_u32_to_le_bytes(s.1) + spec_u32_to_le_bytes(s.2)
        + spec_u32_to_le_bytes(s.3)
}

/// The lowercase hex character for a value below 16.
pub open spec fn hex_digit(n: int) -> char
    recommends
        0 <= n < 16,
{
    if n == 0 { '0' } else if n == 1 { '1' } else if n == 2 { '2' } else if n == 3 { '3' }
    else if n == 4 { '4' } else if n == 5 { '5' } else if n == 6 { '6' } else if n == 7 { '7' }
    else if n == 8 { '8' } else if n == 9 { '9' } else if n == 10 { 'a' } else if n == 11 { 'b' }
    else if n == 12 { 'c' } else if n == 13 { 'd' } else if n == 14 { 'e' } else { 'f' }
}

/// Lowercase hex rendering of a byte sequence, two characters per byte,
/// high nibble first.
pub open spec fn bytes_hex(bytes: Seq<u8>) -> Seq<char> {
    Seq::new(
        bytes.len() * 2,
        |i: int| if i % 2 == 0 {
            hex_digit(bytes[i / 2] as int / 16)
        } else {
            hex_digit(bytes[i / 2] as int % 16)
        },
    )
}

/// The 32-character lowercase hex form of the MD5 digest of `msg`.
pub open spec fn md5_hex(msg: Seq<u8>) -> Seq<char> {
    bytes_hex(md5_digest_bytes(msg))
}

/// The single terminal block of the padded message when the residue
/// (message length modulo 64) is below 56: the leftover bytes, the `0x80`
/// marker, zeros up to offset 56, and the 8-byte length field.
pub open spec fn tail_block_short(msg: Seq<u8>) -> Seq<u8>
    recommends
        msg.len() % 64 < 56,
{
    let r = msg.len() % 64;
    msg.skip((msg.len() - r) as int) + seq![0x80u8] + zeros((55 - r) as nat)
        + spec_u64_to_le_bytes(length_bits(msg.len()))
}

/// The first of the two terminal blocks when the residue is 56 or more:
/// the leftover bytes, the `0x80` marker, and zeros to the block end.
pub open spec fn tail_block_marker(msg: Seq<u8>) -> Seq<u8>
    recommends
        msg.len() % 64 >= 56,
{
    let r = msg.len() % 64;
    msg.skip((msg.len() - r) as int) + seq![0x80u8] + zeros((63 - r) as nat)
}

/// The second of the two terminal blocks when the residue is 56 or more:
/// 56 zeros and the 8-byte length field.
pub open spec fn tail_block_length(msg: Seq<u8>) -> Seq<u8> {
    zeros(56) + spec_u64_to_le_bytes(length_bits(msg.len()))
}

/// The residue modulo 64 either increments with one more byte, or wraps to
/// zero at a block boundary.
pub proof fn lemma_mod64_step(n: nat)
    ensures
        n % 64 < 63 ==> (n + 1) % 64 == n % 64 + 1,
        n % 64 == 63 ==> (n + 1) % 64 == 0,
{
    vstd::arithmetic::div_mod::lemma_mod_division_less_than_divisor(n as int, 64);
    vstd::arithmetic::div_mod::lemma_fundamental_div_mod(n as int, 64);
    let q = n as int / 64;
    let r = n as int % 64;
    if r < 63 {
        vstd::arithmetic::div_mod::lemma_mod_multiples_vanish(q, r + 1, 64);
        vstd::arithmetic::div_mod::lemma_small_mod((r + 1) as nat, 64);
    } else {
        assert(n as int + 1 == 64 * (q + 1) + 0);
        vstd::arithmetic::div_mod::lemma_mod_multiples_vanish(q + 1, 0, 64);
        vstd::arithmetic::div_mod::lemma_small_mod(0, 64);
    }
}

/// A message length splits into a block-aligned part and a residue below 64.
pub proof fn lemma_block_aligned(n: nat)
    ensures
        n % 64 <= n,
        (n - n % 64) % 64 == 0,
        n % 64 < 64,
{
    vstd::arithmetic::div_mod::lemma_mod_division_less_than_divisor(n as int, 64);
    vstd::arithmetic::div_mod::lemma_mod_decreases(n, 64);
    vstd::arithmetic::div_mod::lemma_sub_mod_noop(n as int, n as int % 64, 64);
    vstd::arithmetic::div_mod::lemma_mod_twice(n as int, 64);
}

/// Feeding one more byte advances the stored bit length by eight, modulo
/// 2^64.
pub proof fn lemma_length_bits_step(n: nat)
    ensures
        length_bits(n + 1) == ((length_bits(n) + 8) % 0x1_0000_0000_0000_0000) as u64,
{
    let m = 0x1_0000_0000_0000_0000;
    vstd::arithmetic::div_mod::lemma_add_mod_noop(n as int * 8, 8, m as int);
    vstd::arithmetic::div_mod::lemma_small_mod(8, m);
    vstd::arithmetic::div_mod::lemma_mod_twice(n as int * 8, m as int);
}

/// Processing a block-aligned sequence `x` followed by `y` is processing
/// `x`, then `y` from the resulting state.
pub proof fn lemma_process_blocks_append(s: (u32, u32, u32, u32), x: Seq<u8>, y: Seq<u8>)
    requires
        x.len() % 64 == 0,
    ensures
        process_blocks(s, x + y) == process_blocks(process_blocks(s, x), y),
    decreases x.len(),
{
    if x.len() == 0 {
        assert(x + y =~= y);
    } else {
        assert(x.len() >= 64) by {
            if x.len() < 64 {
                vstd::arithmetic::div_mod::lemma_small_mod(x.len(), 64);
            }
        }
        assert((x + y).len() >= 64);
        assert((x + y).take(64) =~= x.take(64));
        assert((x + y).skip(64) =~= x.skip(64) + y);
        assert(x.skip(64).len() % 64 == 0) by {
            vstd::arithmetic::div_mod::lemma_mod_sub_multiples_vanish(x.len() as int, 64);
        }
        lemma_process_blocks_append(md5_compress(s, block_words(x.take(64))), x.skip(64), y);
    }
}

/// Processing a sequence that is exactly one block long is one compression.
pub proof fn lemma_process_one_block(s: (u32, u32, u32, u32), b: Seq<u8>)
    requires
        b.len() == 64,
    ensures
        process_blocks(s, b) == md5_compress(s, block_words(b)),
{
    assert(b.take(64) =~= b);
    assert(b.skip(64).len() == 0);
    assert(process_blocks(md5_compress(s, block_words(b.take(64))), b.skip(64))
        == md5_compress(s, block_words(b.take(64))));
}

/// The MD5 state over `msg` splits into processing the block-aligned prefix
/// and then the one or two terminal padded blocks.
pub proof fn lemma_md5_words_split(msg: Seq<u8>)
    ensures
        ({
            let r = msg.len() % 64;
            let s = process_blocks(md5_init(), msg.take((msg.len() - r) as int));
            &&& r < 56 ==> md5_words(msg) == md5_compress(s, block_words(tail_block_short(msg)))
            &&& r >= 56 ==> md5_words(msg) == md5_compress(
                md5_compress(s, block_words(tail_block_marker(msg))),
                block_words(tail_block_length(msg)),
            )
        }),
{
    vstd::arithmetic::div_mod::lemma_mod_division_less_than_divisor(msg.len() as int, 64);
    let r = msg.len() % 64;
    let full = (msg.len() - r) as int;
    let prefix = msg.take(full);
    assert(prefix.len() % 64 == 0) by {
        vstd::arithmetic::div_mod::lemma_sub_mod_noop(msg.len() as int, r as int, 64);
        vstd::arithmetic::div_mod::lemma_mod_twice(msg.len() as int, 64);
    }
    vstd::bytes::lemma_auto_spec_u64_to_from_le_bytes();
    let lenb = spec_u64_to_le_bytes(length_bits(msg.len()));
    assert(lenb.len() == 8);
    if r < 56 {
        let b = tail_block_short(msg);
        assert(b.len() == 64);
        assert(md5_pad(msg) =~= prefix + b);
        lemma_process_blocks_append(md5_init(), prefix, b);
        lemma_process_one_block(process_blocks(md5_init(), prefix), b);
    } else {
        let b1 = tail_block_marker(msg);
        let b2 = tail_block_length(msg);
        assert(b1.len() == 64);
        assert(b2.len() == 64);
        assert(md5_pad(msg) =~= prefix + (b1 + b2));
        lemma_process_blocks_append(md5_init(), prefix, b1 + b2);
        lemma_process_blocks_append(process_blocks(md5_init(), prefix), b1, b2);
        lemma_process_one_block(process_blocks(md5_init(), prefix), b1);
        lemma_process_one_block(
            md5_compress(process_blocks(md5_init(), prefix), block_words(b1)),
            b2,
        );
    }
}

} // verus!
