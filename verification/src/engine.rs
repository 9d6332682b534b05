//! Executable MD5 engine, verified against the model.
//!
//! `process_chunk` compresses one 64-byte block exactly as
//! [`crate::model::md5_compress`] describes; the streaming [`Md5`] engine and
//! the one-shot [`compute_md5`] build on it and are specified directly by the
//! model's digest function.

use vstd::prelude::*;
use vstd::bytes::{u32_from_le_bytes, u32_to_le_bytes, u64_to_le_bytes};
use crate::model::{
    block_words, bytes_hex, hex_digit, length_bits, lemma_block_aligned, lemma_length_bits_step,
    lemma_md5_words_split, lemma_mod64_step, lemma_process_blocks_append, lemma_process_one_block,
    md5_compress, md5_digest_bytes, md5_f, md5_g, md5_init, md5_rounds, md5_step, process_blocks,
    rotl, tail_block_length, tail_block_marker, tail_block_short, zeros, MD5_K, MD5_SHIFTS,
};

verus! {

/// Left rotation of a 32-bit word by `n` places, `0 < n < 32`.
fn rotl_exec(x: u32, n: u32) -> (r: u32)
    requires
        0 < n < 32,
    ensures
        r == rotl(x, n),
{
    (x << n) | (x >> (32 - n))
}

/// Apply the 64 MD5 rounds of one 64-byte block to the state held in the
/// four words `a0, b0, c0, d0`, then add the working state back in.
pub fn process_chunk(chunk: &[u8], a0: &mut u32, b0: &mut u32, c0: &mut u32, d0: &mut u32)
    requires
        chunk@.len() == 64,
    ensures
        (*final(a0), *final(b0), *final(c0), *final(d0)) == md5_compress(
            (*old(a0), *old(b0), *old(c0), *old(d0)),
            block_words(chunk@),
        ),
{
    let ghost s0: (u32, u32, u32, u32) = (*a0, *b0, *c0, *d0);

    let mut m: Vec<u32> = Vec::new();
    let mut w: usize = 0;
    while w < 16
        invariant
            chunk@.len() == 64,
            w <= 16,
            m@.len() == w,
            forall|j: int| 0 <= j < w ==> m@[j] == block_words(chunk@)[j],
        decreases 16 - w,
    {
        let word = u32_from_le_bytes(&chunk[4 * w..4 * w + 4]);
        m.push(word);
        w += 1;
    }
    proof {
        assert(m@ =~= block_words(chunk@));
    }

    let mut a = *a0;
    let mut b = *b0;
    let mut c = *c0;
    let mut d = *d0;
    let mut i: usize = 0;
    while i < 64
        invariant
            m@ == block_words(chunk@),
            m@.len() == 16,
            i <= 64,
            (a, b, c, d) == md5_rounds(s0, m@, i as int),
            *a0 == s0.0,
            *b0 == s0.1,
            *c0 == s0.2,
            *d0 == s0.3,
        decreases 64 - i,
    {
        let f: u32 = if i < 16 {
            (b & c) | (!b & d)
        } else if i < 32 {
            (d & b) | (!d & c)
        } else if i < 48 {
            b ^ c ^ d
        } else {
            c ^ (b | !d)
        };
        let g: usize = if i < 16 {
            i
        } else if i < 32 {
            (5 * i + 1) % 16
        } else if i < 48 {
            (3 * i + 5) % 16
        } else {
            (7 * i) % 16
        };
        proof {
            assert(f == md5_f(i as int, b, c, d));
            assert(g == md5_g(i as int));
            assert(g < 16);
        }
        let t = f.wrapping_add(a).wrapping_add(MD5_K[i]).wrapping_add(m[g]);
        let nb = b.wrapping_add(rotl_exec(t, MD5_SHIFTS[i]));
        proof {
            assert((d, nb, b, c) == md5_step((a, b, c, d), m@, i as int));
            assert(md5_rounds(s0, m@, i as int + 1) == md5_step(
                md5_rounds(s0, m@, i as int),
                m@,
                i as int,
            ));
        }
        a = d;
        d = c;
        c = b;
        b = nb;
        i += 1;
    }

    *a0 = (*a0).wrapping_add(a);
    *b0 = (*b0).wrapping_add(b);
    *c0 = (*c0).wrapping_add(c);
    *d0 = (*d0).wrapping_add(d);
}

/// A 16-byte MD5 digest.
pub struct Digest {
    bytes: Vec<u8>,
}

impl View for Digest {
    type V = Seq<u8>;

    closed spec fn view(&self) -> Seq<u8> {
        self.bytes@
    }
}

impl Digest {
    /// The digest as a byte slice, four state words each little-endian.
    pub fn as_bytes(&self) -> (r: &[u8])
        ensures
            r@ == self@,
    {
        self.bytes.as_slice()
    }

    /// The digest as 32 lowercase hexadecimal characters.
    pub fn to_hex(&self) -> (s: String)
        ensures
            s@ == bytes_hex(self@),
    {
        let mut s = String::new();
        let mut i: usize = 0;
        while i < self.bytes.len()
            invariant
                i <= self.bytes@.len(),
                s@.len() == 2 * i,
                forall|j: int| 0 <= j < 2 * i ==> s@[j] == bytes_hex(self@)[j],
            decreases self.bytes@.len() - i,
        {
            let byte = self.bytes[i];
            s.append(hex_digit_str(byte / 16));
            s.append(hex_digit_str(byte % 16));
            i += 1;
        }
        proof {
            assert(s@ =~= bytes_hex(self@));
        }
        s
    }
}

/// The one-character string for a hex digit value below 16.
fn hex_digit_str(n: u8) -> (r: &'static str)
    requires
        n < 16,
    ensures
        r@ == seq![hex_digit(n as int)],
{
    proof {
        reveal_strlit("0");
        reveal_strlit("1");
        reveal_strlit("2");
        reveal_strlit("3");
        reveal_strlit("4");
        reveal_strlit("5");
        reveal_strlit("6");
        reveal_strlit("7");
        reveal_strlit("8");
        reveal_strlit("9");
        reveal_strlit("a");
        reveal_strlit("b");
        reveal_strlit("c");
        reveal_strlit("d");
        reveal_strlit("e");
        reveal_strlit("f");
    }
    let r: &'static str = if n == 0 { "0" } else if n == 1 { "1" } else if n == 2 { "2" }
    else if n == 3 { "3" } else if n == 4 { "4" } else if n == 5 { "5" } else if n == 6 { "6" }
    else if n == 7 { "7" } else if n == 8 { "8" } else if n == 9 { "9" } else if n == 10 { "a" }
    else if n == 11 { "b" } else if n == 12 { "c" } else if n == 13 { "d" } else if n == 14 { "e" }
    else { "f" };
    proof {
        assert(r@ =~= seq![hex_digit(n as int)]);
    }
    r
}

/// A streaming MD5 computation: bytes are fed in through [`Md5::update`]
/// in chunks of any size, and [`Md5::finalize`] pads and closes the stream.
///
/// The view of an engine is the sequence of all bytes fed so far; the
/// digest depends on that sequence alone, so the chunking of the feed
/// cannot affect it.
pub struct Md5 {
    a: u32,
    b: u32,
    c: u32,
    d: u32,
    buf: Vec<u8>,
    len_bits: u64,
    msg: Ghost<Seq<u8>>,
}

impl View for Md5 {
    type V = Seq<u8>;

    closed spec fn view(&self) -> Seq<u8> {
        self.msg@
    }
}

impl Md5 {
    /// The engine's invariant: the four state words are the compression of
    /// the block-aligned prefix of the bytes fed, the buffer holds the
    /// residue, and the bit counter holds the fed length in bits modulo
    /// 2^64.
    pub closed spec fn wf(self) -> bool {
        let n = self.msg@.len();
        let full = (n - n % 64) as int;
        &&& self.buf@ == self.msg@.skip(full)
        &&& (self.a, self.b, self.c, self.d) == process_blocks(md5_init(), self.msg@.take(full))
        &&& self.len_bits == length_bits(n)
    }

    /// A fresh engine that has consumed no bytes.
    pub fn new() -> (engine: Md5)
        ensures
            engine.wf(),
            engine@ == Seq::<u8>::empty(),
    {
        let engine = Md5 {
            a: 0x67452301,
            b: 0xefcdab89,
            c: 0x98badcfe,
            d: 0x10325476,
            buf: Vec::new(),
            len_bits: 0,
            msg: Ghost(Seq::empty()),
        };
        proof {
            let e = Seq::<u8>::empty();
            assert(e.skip(0) =~= e);
            assert(e.take(0) =~= e);
        }
        engine
    }

    /// Feed one byte, compressing a block when the buffer fills.
    fn push_byte(&mut self, byte: u8)
        requires
            old(self).wf(),
        ensures
            final(self).wf(),
            final(self)@ == old(self)@.push(byte),
    {
        let ghost n0 = self.msg@.len();
        let ghost r0 = n0 % 64;
        let ghost full0 = (n0 - r0) as int;
        proof {
            lemma_block_aligned(n0);
            lemma_mod64_step(n0);
            lemma_length_bits_step(n0);
        }
        self.buf.push(byte);
        self.msg = Ghost(self.msg@.push(byte));
        self.len_bits = self.len_bits.wrapping_add(8);
        proof {
            let m = 0x1_0000_0000_0000_0000int;
            let x = old(self).len_bits as int;
            if x + 8 < m {
                vstd::arithmetic::div_mod::lemma_small_mod((x + 8) as nat, m as nat);
            } else {
                vstd::arithmetic::div_mod::lemma_mod_sub_multiples_vanish(x + 8, m);
                vstd::arithmetic::div_mod::lemma_small_mod((x + 8 - m) as nat, m as nat);
            }
            assert(self.len_bits == length_bits(n0 + 1));
        }
        if self.buf.len() == 64 {
            proof {
                assert(r0 == 63);
            }
            let mut a = self.a;
            let mut b = self.b;
            let mut c = self.c;
            let mut d = self.d;
            process_chunk(self.buf.as_slice(), &mut a, &mut b, &mut c, &mut d);
            self.a = a;
            self.b = b;
            self.c = c;
            self.d = d;
            self.buf.clear();
            proof {
                let msg = self.msg@;
                let prefix = msg.take(full0);
                let block = msg.skip(full0);
                assert(prefix =~= old(self).msg@.take(full0));
                assert(block =~= old(self).buf@.push(byte));
                assert(block.len() == 64);
                lemma_process_blocks_append(md5_init(), prefix, block);
                lemma_process_one_block(process_blocks(md5_init(), prefix), block);
                assert(prefix + block =~= msg);
                assert(msg.len() % 64 == 0);
                assert(msg.take(msg.len() as int) =~= msg);
                assert(msg.skip(msg.len() as int) =~= self.buf@);
            }
        } else {
            proof {
                let msg = self.msg@;
                assert(msg.len() % 64 == r0 + 1);
                assert(msg.take(full0) =~= old(self).msg@.take(full0));
                assert(msg.skip(full0) =~= old(self).buf@.push(byte));
            }
        }
    }

    /// Feed a chunk of bytes of any size.
    pub fn update(&mut self, data: &[u8])
        requires
            old(self).wf(),
        ensures
            final(self).wf(),
            final(self)@ == old(self)@ + data@,
    {
        let mut idx: usize = 0;
        while idx < data.len()
            invariant
                self.wf(),
                idx <= data@.len(),
                self@ == old(self)@ + data@.take(idx as int),
            decreases data@.len() - idx,
        {
            let byte = data[idx];
            self.push_byte(byte);
            idx += 1;
            proof {
                assert(old(self)@ + data@.take(idx as int) =~= (old(self)@ + data@.take(
                    idx - 1,
                )).push(byte));
            }
        }
        proof {
            assert(old(self)@ + data@.take(data@.len() as int) =~= old(self)@ + data@);
        }
    }

    /// Pad the stream and produce the digest of all bytes fed.
    pub fn finalize(self) -> (digest: Digest)
        requires
            self.wf(),
        ensures
            digest@ == md5_digest_bytes(self@),
    {
        proof {
            lemma_block_aligned(self@.len());
            lemma_md5_words_split(self@);
            vstd::bytes::lemma_auto_spec_u64_to_from_le_bytes();
        }
        let Md5 { mut a, mut b, mut c, mut d, mut buf, len_bits, msg } = self;
        let ghost message = msg@;
        let ghost r = message.len() % 64;
        let ghost full = (message.len() - r) as int;
        let n = buf.len();
        buf.push(0x80);
        proof {
            assert(buf@ =~= message.skip(full) + seq![0x80u8] + zeros((buf@.len() - n - 1) as nat));
        }
        if n < 56 {
            while buf.len() < 56
                invariant
                    n < 56,
                    n + 1 <= buf@.len() <= 56,
                    buf@ == message.skip(full) + seq![0x80u8] + zeros((buf@.len() - n - 1) as nat),
                decreases 56 - buf@.len(),
            {
                buf.push(0);
                proof {
                    assert(buf@ =~= message.skip(full) + seq![0x80u8] + zeros(
                        (buf@.len() - n - 1) as nat,
                    ));
                }
            }
            let mut lb = u64_to_le_bytes(len_bits);
            buf.append(&mut lb);
            proof {
                assert(buf@ =~= tail_block_short(message));
            }
            process_chunk(buf.as_slice(), &mut a, &mut b, &mut c, &mut d);
        } else {
            while buf.len() < 64
                invariant
                    56 <= n < 64,
                    n + 1 <= buf@.len() <= 64,
                    buf@ == message.skip(full) + seq![0x80u8] + zeros((buf@.len() - n - 1) as nat),
                decreases 64 - buf@.len(),
            {
                buf.push(0);
                proof {
                    assert(buf@ =~= message.skip(full) + seq![0x80u8] + zeros(
                        (buf@.len() - n - 1) as nat,
                    ));
                }
            }
            proof {
                assert(buf@ =~= tail_block_marker(message));
            }
            process_chunk(buf.as_slice(), &mut a, &mut b, &mut c, &mut d);
            let mut buf2: Vec<u8> = Vec::new();
            while buf2.len() < 56
                invariant
                    buf2@.len() <= 56,
                    buf2@ == zeros(buf2@.len() as nat),
                decreases 56 - buf2@.len(),
            {
                buf2.push(0);
                proof {
                    assert(buf2@ =~= zeros(buf2@.len() as nat));
                }
            }
            let mut lb = u64_to_le_bytes(len_bits);
            buf2.append(&mut lb);
            proof {
                assert(buf2@ =~= tail_block_length(message));
            }
            process_chunk(buf2.as_slice(), &mut a, &mut b, &mut c, &mut d);
        }
        proof {
            assert((a, b, c, d) == crate::model::md5_words(message));
        }
        let mut out = u32_to_le_bytes(a);
        let mut ob = u32_to_le_bytes(b);
        let mut oc = u32_to_le_bytes(c);
        let mut od = u32_to_le_bytes(d);
        out.append(&mut ob);
        out.append(&mut oc);
        out.append(&mut od);
        proof {
            assert(out@ =~= md5_digest_bytes(message));
        }
        Digest { bytes: out }
    }
}

/// The MD5 digest of a byte string, consumed in one pass.
pub fn compute_md5(data: &[u8]) -> (digest: Digest)
    ensures
        digest@ == md5_digest_bytes(data@),
{
    let mut engine = Md5::new();
    engine.update(data);
    proof {
        assert(Seq::<u8>::empty() + data@ =~= data@);
    }
    engine.finalize()
}

} // verus!
