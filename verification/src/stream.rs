//! Streaming: the stream request and reply, and the signature of a song id.

use vstd::prelude::*;
use crate::codec::{base64_decoding, base64_encoding, decode_base64, encode_base64};
use crate::digest::{hmac_sha1, hmac_sha1_code};
use crate::text::{all_ascii, decimal, lemma_decimal_shape, lemma_encode_ascii, pow10, push_decimal, utf8_len};

verus! {

/// What to stream.
pub enum StreamParams<'a> {
    SongId(&'a str),
}

/// Where the stream is.
pub struct StreamResponse {
    pub url: String,
}

/// The first half of the stream-signing key material, in Base64.
pub const STREAM_KEY_PART_1: &'static str = "VzeC4H4h+T2f0VI180nVX8x+Mb5HiTtGnKgH52Otj8ZCGDz9jRWyHb6QXK0JskSiOgzQfwTY5xgLLSdUSreaLVMsVVWfxfa8Rw==";

/// The second half of the stream-signing key material, in Base64.
pub const STREAM_KEY_PART_2: &'static str = "ZAPnhUkYwQ6y5DdQxWThbvhJHN8msQ1rqJw0ggKdufQjelrKuiGGJI30aswkgCWTDyHkTGK9ynlqTkJ5L4CiGGUabGeo8M6JTQ==";

/// The bytes of `a` and `b`, exclusive-or'ed pairwise, as long as the shorter one.
pub open spec fn xor_zip(a: Seq<u8>, b: Seq<u8>) -> Seq<u8> {
    Seq::new(if a.len() <= b.len() { a.len() } else { b.len() }, |i: int| a[i] ^ b[i])
}

/// The key that signs song ids: the two decoded key parts, exclusive-or'ed.
pub open spec fn stream_key_spec() -> Option<Seq<u8>> {
    match (base64_decoding(STREAM_KEY_PART_1@), base64_decoding(STREAM_KEY_PART_2@)) {
        (Some(a), Some(b)) => Some(xor_zip(a, b)),
        _ => None,
    }
}

/// The signature of a song id with a salt: Base64 of HMAC-SHA1 under `key`
/// over the id's bytes followed by the salt's bytes.
pub open spec fn id_signature(key: Seq<u8>, id: Seq<char>, salt: Seq<char>) -> Seq<char> {
    base64_encoding(
        hmac_sha1_code(key, vstd::utf8::encode_utf8(id) + vstd::utf8::encode_utf8(salt)),
    )
}

/// The pairwise exclusive-or of two byte strings, as long as the shorter one.
pub fn xor_bytes(a: &[u8], b: &[u8]) -> (r: Vec<u8>)
    ensures
        r@ == xor_zip(a@, b@),
{
    let n = if a.len() <= b.len() {
        a.len()
    } else {
        b.len()
    };
    let mut out: Vec<u8> = Vec::new();
    let mut i: usize = 0;
    while i < n
        invariant
            n == (if a@.len() <= b@.len() { a@.len() } else { b@.len() }),
            i <= n,
            out@.len() == i,
            forall|j: int| 0 <= j < i ==> #[trigger] out@[j] == a@[j] ^ b@[j],
        decreases n - i,
    {
        out.push(a[i] ^ b[i]);
        i = i + 1;
    }
    assert(out@ =~= xor_zip(a@, b@));
    out
}

/// The key that signs song ids (see `stream_key_spec`); `None` when a part
/// does not decode.
pub fn stream_signing_key() -> (r: Option<Vec<u8>>)
    ensures
        match stream_key_spec() {
            Some(k) => r matches Some(v) && v@ == k,
            None => r is None,
        },
{
    proof {
        reveal_strlit("VzeC4H4h+T2f0VI180nVX8x+Mb5HiTtGnKgH52Otj8ZCGDz9jRWyHb6QXK0JskSiOgzQfwTY5xgLLSdUSreaLVMsVVWfxfa8Rw==");
        reveal_strlit("ZAPnhUkYwQ6y5DdQxWThbvhJHN8msQ1rqJw0ggKdufQjelrKuiGGJI30aswkgCWTDyHkTGK9ynlqTkJ5L4CiGGUabGeo8M6JTQ==");
        assert(all_ascii(STREAM_KEY_PART_1@));
        assert(all_ascii(STREAM_KEY_PART_2@));
        lemma_encode_ascii(STREAM_KEY_PART_1@);
        lemma_encode_ascii(STREAM_KEY_PART_2@);
    }
    let a = decode_base64(STREAM_KEY_PART_1);
    let b = decode_base64(STREAM_KEY_PART_2);
    match (a, b) {
        (Some(a), Some(b)) => Some(xor_bytes(a.as_slice(), b.as_slice())),
        _ => None,
    }
}

/// The salt and the signature of a song id at `salt_millis` milliseconds:
/// the salt is the number in decimal (see `id_signature`).
pub fn sign_id_with_salt(key: &[u8], id: &str, salt_millis: u64) -> (r: (String, String))
    requires
        key@.len() < 0x1000_0000_0000_0000,
        utf8_len(id@) < 0x0fff_ffff_ffff_0000,
    ensures
        r.0@ == decimal(salt_millis as nat),
        r.1@ == id_signature(key@, id@, r.0@),
{
    let mut salt = String::new();
    push_decimal(&mut salt, salt_millis);
    proof {
        reveal_with_fuel(pow10, 21);
        lemma_decimal_shape(salt_millis as nat, 20);
        lemma_encode_ascii(salt@);
    }
    let mut data = vstd::slice::slice_to_vec(id.as_bytes());
    let mut salt_bytes = vstd::slice::slice_to_vec(salt.as_str().as_bytes());
    data.append(&mut salt_bytes);
    let code = hmac_sha1(key, data.as_slice());
    let sig = encode_base64(code.as_slice());
    (salt, sig)
}

/// `std::time::SystemTime`, carried through opaque.
#[verifier::external_type_specification]
#[verifier::external_body]
pub struct ExSystemTime(std::time::SystemTime);

/// `std::time::SystemTime::now()`: the machine's clock, of which nothing is stated.
#[verifier::external_body]
fn system_time_now() -> (r: std::time::SystemTime) {
    std::time::SystemTime::now()
}

/// `SystemTime::duration_since(UNIX_EPOCH)`: the time since the Unix epoch,
/// `None` when the time is before it. Nothing is stated of the duration.
#[verifier::external_body]
fn since_unix_epoch(t: &std::time::SystemTime) -> (r: Option<std::time::Duration>) {
    t.duration_since(std::time::UNIX_EPOCH).ok()
}

/// `Duration::as_secs`: the whole seconds of a duration.
#[verifier::external_body]
fn whole_secs(d: &std::time::Duration) -> (r: u64) {
    d.as_secs()
}

/// The current Unix time in whole seconds; `None` when the clock is before
/// the epoch.
fn unix_time_secs() -> (r: Option<u64>) {
    let now = system_time_now();
    match since_unix_epoch(&now) {
        Some(d) => Some(whole_secs(&d)),
        None => None,
    }
}

/// The salt and signature of a song id now: the salt is the current Unix
/// time in whole seconds, times 1000, in decimal. `None` when the clock is
/// before the epoch or the milliseconds overflow, when the key does not
/// decode, or when it is 2^60 bytes or longer (more than the HMAC can take;
/// the key is 73 bytes).
pub fn sign_id(id: String) -> (r: Option<(String, String)>)
    requires
        utf8_len(id@) < 0x0fff_ffff_ffff_0000,
    ensures
        stream_key_spec() is None ==> r is None,
        r matches Some((salt, sig)) ==> stream_key_spec() matches Some(k) && exists|secs: nat|
            salt@ == #[trigger] decimal(secs * 1000) && sig@ == id_signature(k, id@, salt@),
{
    let key = match stream_signing_key() {
        Some(k) => k,
        None => {
            return None;
        },
    };
    let secs = match unix_time_secs() {
        Some(s) => s,
        None => {
            return None;
        },
    };
    let millis = match secs.checked_mul(1000) {
        Some(m) => m,
        None => {
            return None;
        },
    };
    if key.len() as u64 >= 0x1000_0000_0000_0000u64 {
        return None;
    }
    let (salt, sig) = sign_id_with_salt(key.as_slice(), id.as_str(), millis);
    assert(salt@ == decimal(secs as nat * 1000));
    Some((salt, sig))
}

} // verus!
