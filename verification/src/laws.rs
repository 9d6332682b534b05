//! General properties of the digest function.

use vstd::prelude::*;
use crate::model::{md5_digest_bytes, md5_hex};

verus! {

/// Every digest is 16 bytes, and its hex rendering 32 characters, whatever
/// the input length.
pub proof fn lemma_digest_length(msg: Seq<u8>)
    ensures
        md5_digest_bytes(msg).len() == 16,
        md5_hex(msg).len() == 32,
{
    vstd::bytes::lemma_auto_spec_u32_to_from_le_bytes();
}

/// Concatenation of a sequence of chunks into one byte stream.
pub open spec fn concat_chunks(chunks: Seq<Seq<u8>>) -> Seq<u8>
    decreases chunks.len(),
{
    if chunks.len() == 0 {
        Seq::empty()
    } else {
        chunks.first() + concat_chunks(chunks.drop_first())
    }
}

/// Determinism: the digest is a function of the input bytes alone, so
/// hashing the same byte string twice yields identical digests, in bytes
/// and in hex form.
pub proof fn lemma_digest_deterministic(s1: Seq<u8>, s2: Seq<u8>)
    requires
        s1 == s2,
    ensures
        md5_digest_bytes(s1) == md5_digest_bytes(s2),
        md5_hex(s1) == md5_hex(s2),
{
}

/// Chunked-read invariance: a byte stream fed chunk by chunk hashes as its
/// concatenation, so any two chunkings of the same logical stream yield
/// the same digest.
pub proof fn lemma_chunking_invariant(chunks1: Seq<Seq<u8>>, chunks2: Seq<Seq<u8>>)
    requires
        concat_chunks(chunks1) == concat_chunks(chunks2),
    ensures
        md5_digest_bytes(concat_chunks(chunks1)) == md5_digest_bytes(concat_chunks(chunks2)),
{
}

} // verus!
