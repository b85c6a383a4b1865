//! Encryption of the login and password for the `EncryptedPasswd` field:
//! `00 | first four bytes of SHA-1(public key) | RSA(login \0 password)`.

use vstd::prelude::*;
use crate::bytes::{be_u32_value, read_u32_be};
use crate::codec::{
    base64_decoding, base64_encoding, base64_len, decode_base64, encode_base64,
    lemma_base64_no_url_chars,
};
use crate::digest::{sha1, sha1_digest};
use crate::text::utf8_len;

verus! {

/// Google's default public key, in Base64: a big-endian `u32` length and the
/// modulus, then a big-endian `u32` length and the exponent.
pub const GOOGLE_DEFAULT_PUBLIC_KEY: &'static str = "AAAAgMom/1a/v0lblO2Ubrt60J2gcuXSljGFQXgcyZWveWLEwo6prwgi3iJIZdodyhKZQrNWp5nKJ3srRXcUW+F1BD3baEVGcmEgqaLZUNBjm057pKRI16kB0YppeGx5qIQ5QjKzsR8ETQbKLNWgRY0QRNVz34kMJR3P/LgHax/6rmf5AAAAAwEAAQ==";

/// An encrypted login and password.
pub struct EncryptedPw(Vec<u8>);

/// The URL-safe text holds neither `+` nor `/`, and is as long as the text it
/// was made from.
pub proof fn lemma_url_safe_alphabet(s: Seq<char>)
    ensures
        url_safe(s).len() == s.len(),
        forall|i: int| 0 <= i < s.len() ==> #[trigger] url_safe(s)[i] != '+' && url_safe(s)[i] != '/',
{
}

/// URL-safe Base64 (RFC 4648, section 5) against standard Base64: the
/// URL-safe text of some bytes is as long as their standard Base64 text, has
/// `-` exactly where the standard text has `+`, `_` exactly where it has `/`,
/// and the same character everywhere else.
pub proof fn lemma_url_safe_base64(bytes: Seq<u8>)
    ensures
        url_safe(base64_encoding(bytes)).len() == base64_encoding(bytes).len(),
        forall|i: int|
            #![trigger url_safe(base64_encoding(bytes))[i]]
            0 <= i < base64_encoding(bytes).len() ==> {
                &&& (url_safe(base64_encoding(bytes))[i] == '-' <==> base64_encoding(bytes)[i]
                    == '+')
                &&& (url_safe(base64_encoding(bytes))[i] == '_' <==> base64_encoding(bytes)[i]
                    == '/')
                &&& (base64_encoding(bytes)[i] != '+' && base64_encoding(bytes)[i] != '/'
                    ==> url_safe(base64_encoding(bytes))[i] == base64_encoding(bytes)[i])
            },
{
    lemma_base64_no_url_chars(bytes);
    let e = base64_encoding(bytes);
    assert forall|i: int| 0 <= i < e.len() implies #[trigger] e[i] != '-' && e[i] != '_' by {}
}

/// The modulus and the exponent of a key laid out as two length-prefixed
/// byte strings, or `None` when a length runs past the end of the key.
pub open spec fn key_parts(key: Seq<u8>) -> Option<(Seq<u8>, Seq<u8>)> {
    if key.len() < 4 {
        None
    } else {
        let mod_len = be_u32_value(key);
        if 4 + mod_len + 4 > key.len() {
            None
        } else {
            let exp_len = be_u32_value(key.subrange(4 + mod_len, key.len() as int));
            if 8 + mod_len + exp_len > key.len() {
                None
            } else {
                Some(
                    (
                        key.subrange(4, 4 + mod_len),
                        key.subrange(8 + mod_len, 8 + mod_len + exp_len),
                    ),
                )
            }
        }
    }
}

/// True when the key's parts fit in it and each is short enough for
/// `BigNum::from_slice` (at most `i32::MAX` bytes).
pub open spec fn decomposable(key: Seq<u8>) -> bool {
    key_parts(key) matches Some((m, e)) && m.len() <= i32::MAX && e.len() <= i32::MAX
}

/// `s` with every `+` replaced by `-` and every `/` by `_`.
pub open spec fn url_safe(s: Seq<char>) -> Seq<char> {
    s.map_values(|c: char| if c == '+' { '-' } else if c == '/' { '_' } else { c })
}

/// Whether `decompose` may be called on the key (see `decomposable`).
pub fn can_decompose(public_key: &[u8]) -> (r: bool)
    ensures
        r == decomposable(public_key@),
{
    let n = public_key.len();
    let u32_len: usize = 4;
    if n < u32_len {
        return false;
    }
    let mod_len = read_u32_be(public_key) as usize;
    if n - u32_len < mod_len || n - u32_len - mod_len < u32_len {
        return false;
    }
    let tail = vstd::slice::slice_subrange(public_key, mod_len + u32_len, n);
    let exp_len = read_u32_be(tail) as usize;
    n - (u32_len + mod_len + u32_len) >= exp_len && mod_len <= 0x7fff_ffff && exp_len
        <= 0x7fff_ffff
}

/// The modulus and the exponent of a length-prefixed key (see `key_parts`).
pub fn public_key_parts(public_key: &[u8]) -> (r: (&[u8], &[u8]))
    requires
        key_parts(public_key@) is Some,
    ensures
        key_parts(public_key@) == Some((r.0@, r.1@)),
{
    let _n = public_key.len();
    let u32_len: usize = 4;
    let mod_len = read_u32_be(public_key) as usize;
    let mod_offset = u32_len;
    let mod_bin = vstd::slice::slice_subrange(public_key, mod_offset, mod_offset + mod_len);
    let exp_offset = mod_offset + mod_len + u32_len;
    let tail = vstd::slice::slice_subrange(public_key, mod_len + mod_offset, public_key.len());
    let exp_len = read_u32_be(tail) as usize;
    let exp_bin = vstd::slice::slice_subrange(public_key, exp_offset, exp_offset + exp_len);
    (mod_bin, exp_bin)
}

/// An RSA public key, as the big-endian bytes of its modulus and exponent.
pub struct RsaPublicKey {
    pub modulus: Vec<u8>,
    pub exponent: Vec<u8>,
}

/// True when `ciphertext` is an RSAES-PKCS1-v1_5 encryption (RFC 8017,
/// section 7.2.1) of `plaintext` under the public key whose modulus and
/// exponent have the big-endian bytes `modulus` and `exponent`, for some
/// choice of the random padding: what holds of every ciphertext that
/// OpenSSL's `RSA_public_encrypt` with `RSA_PKCS1_PADDING` returns.
pub uninterp spec fn pkcs1_v15_encryption_of(
    modulus: Seq<u8>,
    exponent: Seq<u8>,
    plaintext: Seq<u8>,
    ciphertext: Seq<u8>,
) -> bool;

/// The PKCS#1 PEM text (`-----BEGIN RSA PUBLIC KEY-----`) of the public key
/// with the given modulus and exponent bytes, as OpenSSL writes it.
pub uninterp spec fn rsa_public_key_pem(modulus: Seq<u8>, exponent: Seq<u8>) -> Seq<char>;

/// RSA public-key encryption with PKCS#1 v1.5 padding, from plain bytes to
/// plain bytes: `BigNum::from_slice` of the modulus and of the exponent,
/// `Rsa::from_public_components`, then `Rsa::public_encrypt` with
/// `Padding::PKCS1` into a buffer of `Rsa::size` bytes, cut to the length
/// that OpenSSL reports. `None` when OpenSSL reports an error (allocation,
/// or a plaintext too long for the key). The padding is random: what is
/// stated holds of every outcome, the ciphertext is an encryption of `from`
/// under that key and at most `Rsa::size` bytes long, which is at most the
/// modulus' length. The `openssl` crate panics on inputs longer than
/// `i32::MAX`, which are left out.
#[verifier::external_body]
fn rsa_public_encrypt_pkcs1(modulus: &[u8], exponent: &[u8], from: &[u8]) -> (r: Option<Vec<u8>>)
    requires
        modulus@.len() <= i32::MAX,
        exponent@.len() <= i32::MAX,
        from@.len() <= i32::MAX,
    ensures
        r matches Some(c) ==> c@.len() <= modulus@.len() && pkcs1_v15_encryption_of(
            modulus@,
            exponent@,
            from@,
            c@,
        ),
{
    let n = openssl::bn::BigNum::from_slice(modulus).ok()?;
    let e = openssl::bn::BigNum::from_slice(exponent).ok()?;
    let rsa = openssl::rsa::Rsa::from_public_components(n, e).ok()?;
    let mut to = vec![0u8; rsa.size() as usize];
    let len = rsa.public_encrypt(from, &mut to, openssl::rsa::Padding::PKCS1).ok()?;
    to.truncate(len);
    Some(to)
}

/// The PKCS#1 PEM text of the public key with the given modulus and exponent:
/// `BigNum::from_slice` of each, `Rsa::from_public_components`, then
/// `Rsa::public_key_to_pem_pkcs1` and the PEM bytes as a `String` (PEM is
/// ASCII). `None` when OpenSSL reports an error, which it does only when it
/// cannot allocate. The `openssl` crate panics on slices longer than
/// `i32::MAX`, which are left out.
#[verifier::external_body]
fn public_key_pem(modulus: &[u8], exponent: &[u8]) -> (r: Option<String>)
    requires
        modulus@.len() <= i32::MAX,
        exponent@.len() <= i32::MAX,
    ensures
        r matches Some(s) ==> s@ == rsa_public_key_pem(modulus@, exponent@),
{
    let n = openssl::bn::BigNum::from_slice(modulus).ok()?;
    let e = openssl::bn::BigNum::from_slice(exponent).ok()?;
    let rsa = openssl::rsa::Rsa::from_public_components(n, e).ok()?;
    String::from_utf8(rsa.public_key_to_pem_pkcs1().ok()?).ok()
}

/// The RSA public key of a length-prefixed key: its modulus and its exponent
/// (see `key_parts`).
pub fn decompose(public_key: &[u8]) -> (r: RsaPublicKey)
    requires
        decomposable(public_key@),
    ensures
        key_parts(public_key@) == Some((r.modulus@, r.exponent@)),
{
    let (mod_bin, exp_bin) = public_key_parts(public_key);
    RsaPublicKey {
        modulus: vstd::slice::slice_to_vec(mod_bin),
        exponent: vstd::slice::slice_to_vec(exp_bin),
    }
}

impl RsaPublicKey {
    /// The key's PKCS#1 PEM text (see `rsa_public_key_pem`); `None` when
    /// OpenSSL cannot build it.
    pub fn to_pem_pkcs1(&self) -> (r: Option<String>)
        requires
            self.modulus@.len() <= i32::MAX,
            self.exponent@.len() <= i32::MAX,
        ensures
            r matches Some(s) ==> s@ == rsa_public_key_pem(self.modulus@, self.exponent@),
    {
        public_key_pem(self.modulus.as_slice(), self.exponent.as_slice())
    }
}

impl EncryptedPw {
    /// The encrypted bytes.
    pub closed spec fn pw_bytes(&self) -> Seq<u8> {
        self.0@
    }

    /// The number of encrypted bytes.
    pub fn len(&self) -> (r: usize)
        ensures
            r == self.pw_bytes().len(),
    {
        self.0.len()
    }

    /// URL-safe Base64 of the encrypted bytes: standard Base64 with `+`
    /// written as `-` and `/` as `_`.
    pub fn to_url_safe_base64(&self) -> (r: String)
        requires
            base64_len(self.pw_bytes().len()) <= usize::MAX,
        ensures
            r@ == url_safe(base64_encoding(self.pw_bytes())),
            r@.len() == base64_encoding(self.pw_bytes()).len(),
            forall|i: int|
                #![trigger r@[i]]
                0 <= i < r@.len() ==> {
                    &&& (r@[i] == '-' <==> base64_encoding(self.pw_bytes())[i] == '+')
                    &&& (r@[i] == '_' <==> base64_encoding(self.pw_bytes())[i] == '/')
                    &&& (base64_encoding(self.pw_bytes())[i] != '+' && base64_encoding(
                        self.pw_bytes(),
                    )[i] != '/' ==> r@[i] == base64_encoding(self.pw_bytes())[i])
                },
    {
        proof {
            lemma_url_safe_base64(self.pw_bytes());
        }
        let encoded = encode_base64(self.0.as_slice());
        let s = encoded.as_str();
        let n = s.unicode_len();
        let mut out = String::new();
        let mut i: usize = 0;
        while i < n
            invariant
                n == s@.len(),
                i <= n,
                out@ == url_safe(s@.subrange(0, i as int)),
            decreases n - i,
        {
            let c = s.get_char(i);
            proof {
                reveal_strlit("-");
                reveal_strlit("_");
            }
            if c == '+' {
                out.append("-");
            } else if c == '/' {
                out.append("_");
            } else {
                let one = s.substring_char(i, i + 1);
                assert(one@ =~= seq![c]);
                out.append(one);
            }
            assert(s@.subrange(0, i + 1) =~= s@.subrange(0, i as int).push(c));
            assert(url_safe(s@.subrange(0, i + 1)) =~= url_safe(s@.subrange(0, i as int)).push(
                if c == '+' { '-' } else if c == '/' { '_' } else { c },
            ));
            i = i + 1;
            assert(out@ =~= url_safe(s@.subrange(0, i as int)));
        }
        assert(s@.subrange(0, n as int) =~= s@);
        out
    }
}

/// The text that is encrypted: the login's bytes, a zero byte, then the
/// password's bytes.
pub open spec fn login_plaintext(username: Seq<char>, password: Seq<char>) -> Seq<u8> {
    vstd::utf8::encode_utf8(username) + seq![0u8] + vstd::utf8::encode_utf8(password)
}

/// The five bytes in front of the ciphertext: a zero byte, then the first
/// four bytes of the SHA-1 digest of the public key.
pub open spec fn key_signature(key: Seq<u8>) -> Seq<u8> {
    seq![0u8] + sha1_digest(key).subrange(0, 4)
}

/// True when `bytes` are an encrypted password for `plaintext` under the
/// length-prefixed key `key`: the five-byte key signature, then a PKCS#1
/// v1.5 encryption of `plaintext` under the key's modulus and exponent, at
/// most as long as the modulus.
pub open spec fn encrypted_under(key: Seq<u8>, plaintext: Seq<u8>, bytes: Seq<u8>) -> bool {
    &&& bytes.len() >= 5
    &&& bytes.subrange(0, 5) == key_signature(key)
    &&& key_parts(key) matches Some((m, e))
    &&& bytes.len() <= 5 + m.len()
    &&& pkcs1_v15_encryption_of(m, e, plaintext, bytes.subrange(5, bytes.len() as int))
}

/// The plaintext that is encrypted: the login's bytes, a zero byte, then the
/// password's bytes (see `login_plaintext`).
pub fn login_plaintext_bytes(username: &str, password: &str) -> (r: Vec<u8>)
    ensures
        r@ == login_plaintext(username@, password@),
{
    let mut data = vstd::slice::slice_to_vec(username.as_bytes());
    data.push(0u8);
    let mut pw_data = vstd::slice::slice_to_vec(password.as_bytes());
    data.append(&mut pw_data);
    assert(data@ =~= login_plaintext(username@, password@));
    data
}

/// The encrypted password: the five-byte signature of `key` (see
/// `key_signature`) followed by the ciphertext, byte for byte.
pub fn with_key_signature(key: &[u8], ciphertext: Vec<u8>) -> (r: EncryptedPw)
    requires
        key@.len() < 0x2000_0000_0000_0000,
    ensures
        r.pw_bytes() == key_signature(key@) + ciphertext@,
        r.pw_bytes().len() == 5 + ciphertext@.len(),
{
    let digest = sha1(key);
    let mut res: Vec<u8> = Vec::new();
    res.push(0u8);
    res.push(digest[0]);
    res.push(digest[1]);
    res.push(digest[2]);
    res.push(digest[3]);
    assert(res@ =~= key_signature(key@));
    let mut ciphertext = ciphertext;
    let ghost c = ciphertext@;
    res.append(&mut ciphertext);
    assert(res@ =~= key_signature(key@) + c);
    EncryptedPw(res)
}

/// What goes into the encryption of a login: the decoded default key, its
/// modulus and exponent (see `decompose`) and the plaintext `username \0
/// password` (see `login_plaintext_bytes`). `None` exactly when the key does
/// not decode, does not split into its parts, or is 2^61 bytes or longer
/// (more than ring can hash; the key is 139 bytes).
pub fn login_encryption_input(username: &str, password: &str) -> (r: Option<
    (Vec<u8>, RsaPublicKey, Vec<u8>),
>)
    ensures
        match base64_decoding(GOOGLE_DEFAULT_PUBLIC_KEY@) {
            Some(k) => if decomposable(k) && k.len() < 0x2000_0000_0000_0000 {
                r matches Some((kv, key, p)) && kv@ == k && key_parts(k) == Some(
                    (key.modulus@, key.exponent@),
                ) && p@ == login_plaintext(username@, password@)
            } else {
                r is None
            },
            None => r is None,
        },
{
    proof {
        reveal_strlit("AAAAgMom/1a/v0lblO2Ubrt60J2gcuXSljGFQXgcyZWveWLEwo6prwgi3iJIZdodyhKZQrNWp5nKJ3srRXcUW+F1BD3baEVGcmEgqaLZUNBjm057pKRI16kB0YppeGx5qIQ5QjKzsR8ETQbKLNWgRY0QRNVz34kMJR3P/LgHax/6rmf5AAAAAwEAAQ==");
        assert(crate::text::all_ascii(GOOGLE_DEFAULT_PUBLIC_KEY@));
        crate::text::lemma_encode_ascii(GOOGLE_DEFAULT_PUBLIC_KEY@);
    }
    let public_key = match decode_base64(GOOGLE_DEFAULT_PUBLIC_KEY) {
        Some(k) => k,
        None => {
            return None;
        },
    };
    if !can_decompose(public_key.as_slice()) || public_key.len() as u64 >= 0x2000_0000_0000_0000u64 {
        return None;
    }
    let key = decompose(public_key.as_slice());
    let data = login_plaintext_bytes(username, password);
    Some((public_key, key, data))
}

/// The key signature of an encrypted login does not depend on the login or
/// the password: two encrypted passwords under the same key begin with the
/// same five bytes.
pub proof fn lemma_signature_independent_of_login(
    key: Seq<u8>,
    plaintext1: Seq<u8>,
    plaintext2: Seq<u8>,
    bytes1: Seq<u8>,
    bytes2: Seq<u8>,
)
    requires
        encrypted_under(key, plaintext1, bytes1),
        encrypted_under(key, plaintext2, bytes2),
    ensures
        bytes1.subrange(0, 5) == bytes2.subrange(0, 5),
{
}

/// Encrypts `username \0 password` (see `login_plaintext_bytes`) with
/// Google's default public key, behind the five-byte key signature (see
/// `with_key_signature`): the bytes after the signature are exactly what
/// OpenSSL's PKCS#1 encryption returned. `None` when the key does not decode
/// or does not split into its parts, when OpenSSL reports an error, or when
/// the decoded key is 2^61 bytes or longer (more than ring can hash; the key
/// is 139 bytes).
pub fn encrypt_login(username: &str, password: String) -> (r: Option<EncryptedPw>)
    requires
        utf8_len(username@) + 1 + utf8_len(password@) <= i32::MAX,
    ensures
        base64_decoding(GOOGLE_DEFAULT_PUBLIC_KEY@) is None ==> r is None,
        base64_decoding(GOOGLE_DEFAULT_PUBLIC_KEY@) matches Some(k) && !decomposable(k) ==> r is None,
        r matches Some(pw) ==> base64_decoding(GOOGLE_DEFAULT_PUBLIC_KEY@) matches Some(k)
            && decomposable(k) && encrypted_under(
            k,
            login_plaintext(username@, password@),
            pw.pw_bytes(),
        ),
{
    let (public_key, key, data) = match login_encryption_input(username, password.as_str()) {
        Some(t) => t,
        None => {
            return None;
        },
    };
    let encrypted = match rsa_public_encrypt_pkcs1(
        key.modulus.as_slice(),
        key.exponent.as_slice(),
        data.as_slice(),
    ) {
        Some(v) => v,
        None => {
            return None;
        },
    };
    let ghost c = encrypted@;
    let pw = with_key_signature(public_key.as_slice(), encrypted);
    assert(pw.pw_bytes().subrange(0, 5) =~= key_signature(public_key@));
    assert(pw.pw_bytes().subrange(5, pw.pw_bytes().len() as int) =~= c);
    Some(pw)
}

/// Encrypts the login `username` with the password the user typed in
/// (see `encrypt_login`).
pub fn input_password_and_encrypt(username: &str, password: String) -> (r: Option<EncryptedPw>)
    requires
        utf8_len(username@) + 1 + utf8_len(password@) <= i32::MAX,
    ensures
        base64_decoding(GOOGLE_DEFAULT_PUBLIC_KEY@) is None ==> r is None,
        base64_decoding(GOOGLE_DEFAULT_PUBLIC_KEY@) matches Some(k) && !decomposable(k) ==> r is None,
        r matches Some(pw) ==> base64_decoding(GOOGLE_DEFAULT_PUBLIC_KEY@) matches Some(k)
            && decomposable(k) && encrypted_under(
            k,
            login_plaintext(username@, password@),
            pw.pw_bytes(),
        ),
{
    encrypt_login(username, password)
}

} // verus!
