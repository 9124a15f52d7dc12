//! Whole-file digests: MD5, SHA1 and SHA256 over the full buffer, as a
//! fixed ordered triple.
//!
//! The digest computations come from an outside cryptography crate; what
//! each returns is named here as a function of the input bytes alone, which
//! makes determinism — identical bytes, identical digests — a theorem.

use crypto::digest::Digest;
use vstd::prelude::*;
use vstd::string::StringExecFns;

verus! {

/// The hexadecimal MD5 digest of the bytes, as ASCII text bytes.  A name
/// for what the outside MD5 implementation returns: a function of the input
/// bytes alone.
pub uninterp spec fn spec_md5_hex(data: Seq<u8>) -> Seq<u8>;

/// The hexadecimal SHA1 digest of the bytes, as ASCII text bytes.
pub uninterp spec fn spec_sha1_hex(data: Seq<u8>) -> Seq<u8>;

/// The hexadecimal SHA256 digest of the bytes, as ASCII text bytes.
pub uninterp spec fn spec_sha256_hex(data: Seq<u8>) -> Seq<u8>;

/// Relies on rust-crypto's `Md5` through its `Digest` trait: `result_str`
/// yields the hexadecimal rendering of the 128-bit digest — 32 characters,
/// a function of the input bytes alone.
#[verifier::external_body]
fn md5_hex_bytes(data: &[u8]) -> (r: Vec<u8>)
    ensures
        r@ == spec_md5_hex(data@),
        r@.len() == 32,
{
    let mut hash = crypto::md5::Md5::new();
    hash.input(data);
    hash.result_str().as_bytes().to_vec()
}

/// Relies on rust-crypto's `Sha1` through its `Digest` trait: `result_str`
/// yields the hexadecimal rendering of the 160-bit digest — 40 characters,
/// a function of the input bytes alone.
#[verifier::external_body]
fn sha1_hex_bytes(data: &[u8]) -> (r: Vec<u8>)
    ensures
        r@ == spec_sha1_hex(data@),
        r@.len() == 40,
{
    let mut hash = crypto::sha1::Sha1::new();
    hash.input(data);
    hash.result_str().as_bytes().to_vec()
}

/// Relies on rust-crypto's `Sha256` through its `Digest` trait:
/// `result_str` yields the hexadecimal rendering of the 256-bit digest —
/// 64 characters, a function of the input bytes alone.
#[verifier::external_body]
fn sha256_hex_bytes(data: &[u8]) -> (r: Vec<u8>)
    ensures
        r@ == spec_sha256_hex(data@),
        r@.len() == 64,
{
    let mut hash = crypto::sha2::Sha256::new();
    hash.input(data);
    hash.result_str().as_bytes().to_vec()
}

/// Byte data that can be digested.
pub trait HashData {
    /// Produces the MD5 digest, as hexadecimal text bytes.
    fn md5(&self) -> Vec<u8>;

    /// Produces the SHA1 digest, as hexadecimal text bytes.
    fn sha1(&self) -> Vec<u8>;

    /// Produces the SHA256 digest, as hexadecimal text bytes.
    fn sha256(&self) -> Vec<u8>;
}

impl HashData for [u8] {
    fn md5(&self) -> Vec<u8> {
        md5_hex_bytes(self)
    }

    fn sha1(&self) -> Vec<u8> {
        sha1_hex_bytes(self)
    }

    fn sha256(&self) -> Vec<u8> {
        sha256_hex_bytes(self)
    }
}

/// One named digest.
#[derive(Clone, Debug, Default, PartialEq)]
pub struct Hash {
    pub name: String,
    pub value: Vec<u8>,
}

/// The fixed ordered digest triple: MD5, SHA1, SHA256.
#[derive(Clone, Debug, Default, PartialEq)]
pub struct Hashes {
    pub hashes: Vec<Hash>,
}

/// What the digest triple holds for the input bytes: exactly MD5, SHA1 and
/// SHA256 of the whole buffer, in that fixed order.
pub open spec fn spec_matches_hashes(h: Hashes, data: Seq<u8>) -> bool {
    &&& h.hashes@.len() == 3
    &&& h.hashes@[0].name@ == "MD5"@ && h.hashes@[0].value@ == spec_md5_hex(data)
    &&& h.hashes@[1].name@ == "SHA1"@ && h.hashes@[1].value@ == spec_sha1_hex(data)
    &&& h.hashes@[2].name@ == "SHA256"@ && h.hashes@[2].value@ == spec_sha256_hex(data)
}

impl Hashes {
    /// Digests the whole buffer: always succeeds, always the same three
    /// digests in the same order, stable across repeated calls on
    /// identical bytes.
    pub fn parse(pe: &[u8]) -> (r: Hashes)
        ensures
            spec_matches_hashes(r, pe@),
    {
        let mut hashes: Vec<Hash> = Vec::new();
        hashes.push(Hash { name: String::from_str("MD5"), value: md5_hex_bytes(pe) });
        hashes.push(Hash { name: String::from_str("SHA1"), value: sha1_hex_bytes(pe) });
        hashes.push(Hash { name: String::from_str("SHA256"), value: sha256_hex_bytes(pe) });
        Hashes { hashes }
    }
}

/// Digest extraction is deterministic: identical input bytes yield the
/// identical digest triple, in every call.
pub proof fn lemma_hashes_deterministic(a: Seq<u8>, b: Seq<u8>)
    requires
        a == b,
    ensures
        spec_md5_hex(a) == spec_md5_hex(b),
        spec_sha1_hex(a) == spec_sha1_hex(b),
        spec_sha256_hex(a) == spec_sha256_hex(b),
{
}

} // verus!
