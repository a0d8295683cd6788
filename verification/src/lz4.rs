//! Trusted boundary to the LZ4 block codec used for video payloads.
//!
//! Compression is deterministic, so its result is given a name; the one fact
//! callers need beyond determinism is that decompression inverts it.

use vstd::prelude::*;

verus! {

/// The block that `lz4_flex::compress_prepend_size` produces for a payload.
pub uninterp spec fn lz4_block(p: Seq<u8>) -> Seq<u8>;

/// What `lz4_flex::decompress_size_prepended` recovers from a block, if the
/// block is well formed.
pub uninterp spec fn lz4_unblock(b: Seq<u8>) -> Option<Seq<u8>>;

/// Relies on lz4_flex::compress_prepend_size: the block depends on the input
/// alone, decompressing it gives the input back, and its length is at most
/// the crate's stated maximum output size (20 bytes of block overhead plus a
/// 4-byte size prefix). The input must fit the block's 32-bit size prefix.
#[verifier::external_body]
pub(crate) fn lz4_compress(input: &[u8]) -> (r: Vec<u8>)
    requires
        input@.len() <= 0xffffffff,
    ensures
        r@ == lz4_block(input@),
        lz4_unblock(r@) == Some(input@),
        r@.len() <= 24 + input@.len() * 110 / 100,
{
    lz4_flex::compress_prepend_size(input)
}

/// Relies on lz4_flex::decompress_size_prepended: the outcome depends on the
/// block alone, and a malformed block is reported as an error.
#[verifier::external_body]
pub(crate) fn lz4_decompress(input: &[u8]) -> (r: Option<Vec<u8>>)
    ensures
        match r {
            Some(v) => lz4_unblock(input@) == Some(v@),
            None => lz4_unblock(input@) is None,
        },
{
    lz4_flex::decompress_size_prepended(input).ok()
}

} // verus!
