//! Content fingerprints: the base64-encoded MD5 digest of a file's bytes,
//! used (quoted) as the object's ETag.

use vstd::prelude::*;

verus! {

/// What the MD5 digest of a byte string is: 16 bytes determined by the
/// input bytes alone.
pub uninterp spec fn md5_of(data: Seq<u8>) -> Seq<u8>;

/// What the standard base64 encoding (with padding) of a byte string is:
/// text determined by the input bytes alone.
pub uninterp spec fn base64_of(data: Seq<u8>) -> Seq<u8>;

/// A file's content fingerprint.
pub open spec fn fingerprint_of(data: Seq<u8>) -> Seq<u8> {
    base64_of(md5_of(data))
}

/// Relies on md5::compute: the digest is a function of the input bytes
/// alone, and is always 16 bytes (md5::Digest wraps a `[u8; 16]`).
#[verifier::external_body]
fn md5_digest(data: &Vec<u8>) -> (r: Vec<u8>)
    ensures
        r@ == md5_of(data@),
        r@.len() == 16,
{
    md5::compute(data).0.to_vec()
}

/// Relies on base64's `general_purpose::STANDARD` engine: the encoding is a
/// function of the input bytes alone.
#[verifier::external_body]
fn base64_encode(data: &Vec<u8>) -> (r: Vec<u8>)
    ensures
        r@ == base64_of(data@),
{
    base64::Engine::encode(&base64::engine::general_purpose::STANDARD, data).into_bytes()
}

/// Computes the fingerprint of a file's bytes.
pub fn compute_fingerprint(data: &Vec<u8>) -> (r: Vec<u8>)
    ensures
        r@ == fingerprint_of(data@),
{
    let digest = md5_digest(data);
    base64_encode(&digest)
}

/// Byte-identical contents always receive the same fingerprint, whatever
/// keys the files sit under; and a fingerprint depends on nothing but the
/// file's own bytes.
pub proof fn lemma_fingerprint_deterministic(b1: Seq<u8>, b2: Seq<u8>)
    requires
        b1 == b2,
    ensures
        fingerprint_of(b1) == fingerprint_of(b2),
{
}

} // verus!
