//! Gzip decompression under a cap on the decompressed size.

use crate::error::TarballError;
use vstd::prelude::*;
use vstd::string::StringExecFns;

verus! {

/// What `flate2::read::GzDecoder` makes of `data`: the bytes it decodes, up to
/// the end of the stream or its first error, and whether it reached the end
/// without error.
pub uninterp spec fn gunzip(data: Seq<u8>) -> (Seq<u8>, bool);

/// Relies on `flate2::read::GzDecoder`, read through `std::io::Read::take` and
/// `read_to_end`: the first `limit` decoded bytes, or all of them when there
/// are fewer (and then the stream ended cleanly); an error when decoding
/// failed before `limit` bytes came out.
#[verifier::external_body]
fn gunzip_at_most(data: &[u8], limit: u64) -> (r: Result<Vec<u8>, String>)
    ensures
        match r {
            Ok(out) => {
                &&& out@.len() <= limit
                &&& out@.len() <= gunzip(data@).0.len()
                &&& out@ == gunzip(data@).0.take(out@.len() as int)
                &&& (out@.len() < limit ==> gunzip(data@).1 && out@ == gunzip(data@).0)
            },
            Err(_) => !gunzip(data@).1 && gunzip(data@).0.len() < limit,
        },
{
    let mut out = Vec::new();
    let mut reader = std::io::Read::take(flate2::read::GzDecoder::new(data), limit);
    std::io::Read::read_to_end(&mut reader, &mut out).map(|_| out).map_err(|e| e.to_string())
}

/// `data` is a valid gzip stream that decompresses to at most `max_unpack` bytes.
pub open spec fn unpacks_within(data: Seq<u8>, max_unpack: u64) -> bool {
    gunzip(data).1 && gunzip(data).0.len() <= max_unpack
}

/// Decompresses a gzip stream, refusing it as malformed once more than
/// `max_unpack` bytes have come out of it; no more than `max_unpack + 1`
/// decompressed bytes are ever held. Succeeds exactly when the stream is valid
/// and decompresses to at most `max_unpack` bytes.
pub fn decompress_bounded(data: &[u8], max_unpack: u64) -> (r: Result<Vec<u8>, TarballError>)
    requires
        max_unpack < u64::MAX,
    ensures
        r is Ok <==> unpacks_within(data@, max_unpack),
        r is Ok ==> r->Ok_0@ == gunzip(data@).0,
        r is Err ==> r->Err_0 is Malformed,
{
    match gunzip_at_most(data, max_unpack + 1) {
        Ok(out) => {
            if out.len() as u64 > max_unpack {
                Err(TarballError::Malformed(String::from_str("maximum limit reached when reading")))
            } else {
                Ok(out)
            }
        },
        Err(msg) => Err(TarballError::Malformed(msg)),
    }
}

/// The cap decides alone: a valid stream refused for its size under `low` is
/// accepted under any cap `high` at least its decompressed size, and it yields
/// the same bytes whatever such cap is used.
pub proof fn lemma_raising_the_cap(data: Seq<u8>, low: u64, high: u64)
    requires
        gunzip(data).1,
        gunzip(data).0.len() > low,
        gunzip(data).0.len() <= high,
    ensures
        !unpacks_within(data, low),
        unpacks_within(data, high),
{
}

} // verus!
