//! Hashes, message authentication and randomness from the cryptography crates.

use crypto::mac::Mac;
use vstd::prelude::*;

verus! {

/// The SHA-256 digest of `data`, as `openssl::sha::sha256` computes it.
pub uninterp spec fn sha256_digest(data: Seq<u8>) -> Seq<u8>;

/// The SHA-1 digest of `data`, as `ring::digest::digest` computes it with
/// `SHA1_FOR_LEGACY_USE_ONLY`.
pub uninterp spec fn sha1_digest(data: Seq<u8>) -> Seq<u8>;

/// The HMAC-SHA1 code of `data` under `key`, as `crypto::hmac::Hmac` over
/// `crypto::sha1::Sha1` computes it.
pub uninterp spec fn hmac_sha1_code(key: Seq<u8>, data: Seq<u8>) -> Seq<u8>;

/// `openssl::sha::sha256`: a 32-byte digest that depends on `data` alone.
#[verifier::external_body]
pub(crate) fn sha256(data: &[u8]) -> (r: Vec<u8>)
    ensures
        r@ == sha256_digest(data@),
        r@.len() == 32,
{
    openssl::sha::sha256(data).to_vec()
}

/// `ring::digest::digest` with SHA-1: a 20-byte digest that depends on `data`
/// alone. ring panics on inputs of 2^61 bytes or more, which are left out.
#[verifier::external_body]
pub(crate) fn sha1(data: &[u8]) -> (r: Vec<u8>)
    requires
        data@.len() < 0x2000_0000_0000_0000,
    ensures
        r@ == sha1_digest(data@),
        r@.len() == 20,
{
    ring::digest::digest(&ring::digest::SHA1_FOR_LEGACY_USE_ONLY, data).as_ref().to_vec()
}

/// `crypto::hmac::Hmac::new(Sha1::new(), key)`, fed `data`, then `result().code()`:
/// a 20-byte code that depends on `key` and `data` alone. The SHA-1 bit
/// counter panics on inputs of 2^61 bytes or more, which are left out.
#[verifier::external_body]
pub(crate) fn hmac_sha1(key: &[u8], data: &[u8]) -> (r: Vec<u8>)
    requires
        data@.len() < 0x1000_0000_0000_0000,
        key@.len() < 0x1000_0000_0000_0000,
    ensures
        r@ == hmac_sha1_code(key@, data@),
        r@.len() == 20,
{
    let mut mac = crypto::hmac::Hmac::new(crypto::sha1::Sha1::new(), key);
    mac.input(data);
    mac.result().code().to_vec()
}

/// `openssl::rand::rand_bytes` into a fresh buffer of `n` bytes; `None` when
/// OpenSSL reports an error. The bytes are random: nothing is stated of them
/// but their number.
#[verifier::external_body]
pub(crate) fn random_bytes(n: usize) -> (r: Option<Vec<u8>>)
    requires
        n <= i32::MAX,
    ensures
        r matches Some(v) ==> v@.len() == n,
{
    let mut buf = vec![0u8; n];
    openssl::rand::rand_bytes(&mut buf).ok().map(|_| buf)
}

} // verus!
