//! SHA-256 digests of framed messages.

use sha2::Digest;
use vstd::prelude::*;
use vstd::utf8::*;

use crate::bytes;

verus! {

/// The thirty-two bytes that SHA-256 gives for a message.
pub uninterp spec fn sha256_array(message: Seq<u8>) -> [u8; 32];

/// The SHA-256 digest of a message.
pub open spec fn sha256(message: Seq<u8>) -> Seq<u8> {
    sha256_array(message)@
}

/// Hashes a message with `sha2::Sha256::digest`, which gives the thirty-two
/// bytes of its SHA-256 digest.
#[verifier::external_body]
fn sha256_of(message: &[u8]) -> (digest: [u8; 32])
    ensures
        digest@ == sha256_array(message@)@,
{
    sha2::Sha256::digest(message).into()
}

/// The SHA-256 digest of a message.
pub fn digest(message: &[u8]) -> (digest: [u8; 32])
    ensures
        digest@ == sha256(message@),
{
    sha256_of(message)
}

/// A byte string preceded by its 64-bit length.
pub open spec fn framed(value: Seq<u8>) -> Seq<u8> {
    bytes::be64(value.len() as u64) + value
}

/// Appends a byte string preceded by its 64-bit length.
pub fn push_framed(out: &mut Vec<u8>, value: &[u8])
    ensures
        final(out)@ == old(out)@ + framed(value@),
{
    bytes::push_u64(out, value.len() as u64);
    bytes::push_bytes(out, value);
    proof {
        bytes::concat_regroups(old(out)@, bytes::be64(value@.len() as u64), value@);
    }
}

/// A message that starts with its framed domain.
pub fn domain_message(domain: &str) -> (out: Vec<u8>)
    ensures
        out@ == framed(bytes::utf8(domain@)),
{
    let mut out: Vec<u8> = Vec::new();
    push_framed(&mut out, domain.as_bytes());
    assert(out@ =~= framed(bytes::utf8(domain@)));
    out
}

/// Two concatenations with first parts of one length agree only where both
/// parts do.
pub proof fn concat_parts_are_unique(a: Seq<u8>, b: Seq<u8>, c: Seq<u8>, d: Seq<u8>)
    requires
        a + b == c + d,
        a.len() == c.len(),
    ensures
        a == c,
        b == d,
{
    bytes::concat_splits(a, b);
    bytes::concat_splits(c, d);
}

/// A framed byte string can be told from what follows it: two messages agree
/// only where their framed parts and their rests do.
pub proof fn framed_parts_are_unique(a: Seq<u8>, t: Seq<u8>, b: Seq<u8>, u: Seq<u8>)
    requires
        a.len() <= u64::MAX,
        b.len() <= u64::MAX,
        framed(a) + t == framed(b) + u,
    ensures
        a == b,
        t == u,
{
    let p = bytes::be64(a.len() as u64);
    let q = bytes::be64(b.len() as u64);
    bytes::be64_reads_back(a.len() as u64);
    bytes::be64_reads_back(b.len() as u64);
    bytes::concat_regroups(p, a, t);
    bytes::concat_regroups(q, b, u);
    concat_parts_are_unique(p, a + t, q, b + u);
    concat_parts_are_unique(a, t, b, u);
}

/// Messages of different domains never coincide.
pub proof fn domains_are_separate(a: Seq<char>, t: Seq<u8>, b: Seq<char>, u: Seq<u8>)
    requires
        a != b,
        bytes::utf8(a).len() <= u64::MAX,
        bytes::utf8(b).len() <= u64::MAX,
    ensures
        framed(bytes::utf8(a)) + t != framed(bytes::utf8(b)) + u,
{
    if framed(bytes::utf8(a)) + t == framed(bytes::utf8(b)) + u {
        framed_parts_are_unique(bytes::utf8(a), t, bytes::utf8(b), u);
        encode_utf8_decode_utf8(a);
        encode_utf8_decode_utf8(b);
    }
}

} // verus!
