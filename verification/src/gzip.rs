//! Bounded gzip decompression through `flate2`.
use vstd::prelude::*;
use std::io::Read;

verus! {

/// What `flate2`'s gzip decoder yields for `data` when at most `limit`
/// output bytes are read: `None` when decoding fails.
pub uninterp spec fn gunzip_prefix(data: Seq<u8>, limit: nat) -> Option<Seq<u8>>;

/// Decompress the gzip stream `data`, reading at most `limit` bytes of
/// output (`flate2::read::GzDecoder` behind `Read::take` and
/// `read_to_end`). Returns `None` when the decoder reports an error.
///
/// The contract claims that the outcome depends only on the input bytes
/// and the limit, and that a successful read never yields more than
/// `limit` bytes (what `Read::take` documents).
#[verifier::external_body]
pub(crate) fn gunzip_limited(data: &[u8], limit: u64) -> (r: Option<Vec<u8>>)
    ensures
        match r {
            Some(v) => gunzip_prefix(data@, limit as nat) == Some(v@) && v@.len() <= limit,
            None => gunzip_prefix(data@, limit as nat) is None,
        },
{
    let decoder = flate2::read::GzDecoder::new(data);
    let mut out = Vec::new();
    match decoder.take(limit).read_to_end(&mut out) {
        Ok(_) => Some(out),
        Err(_) => None,
    }
}

} // verus!
