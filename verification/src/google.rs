//! The older `GoogleAuth` credentials: the login request, the reply, and the
//! version-0 save text.

use vstd::prelude::*;
use vstd::string::StringSliceAdditionalSpecFns;
use vstd::utf8::{encode_utf8, encode_utf8_valid_utf8};
use crate::codec::{base64_encoding, base64_len};
use crate::form::{fields_of, form_encode, join_amp, pair_views};
use crate::password::{url_safe, EncryptedPw};
use crate::response::{auth_search_words, find_auth, first_auth, words, words_cut_cleanly};
use crate::text::{
    all_ascii, byte_len, bytes_eq, check_cut, cuts_at, lemma_cut_between, lemma_encode_ascii,
    lemma_encode_utf8_concat, lemma_str_cut, utf8_len,
};
use crate::digest::sha256_digest;
use crate::token::{
    lemma_save_hash_shape, read_v0, save_hash, SaveRead, SJToken, DEVICE_ID_LEN, HASH_LEN,
};

verus! {

/// Auth token and device id from a login.
pub struct GoogleAuth {
    auth: String,
    device_id: String,
}

/// How a `GoogleAuth` save text, given by its bytes, reads: only version 0
/// is known.
pub open spec fn read_google_save(b: Seq<u8>) -> SaveRead {
    if !cuts_at(b, 1) {
        SaveRead::Unreadable
    } else if b[0] == 48 {
        read_v0(b)
    } else {
        SaveRead::UnknownVersion
    }
}

/// The version-0 save text of a device id and an auth token.
pub open spec fn google_save_text(device_id: Seq<char>, auth: Seq<char>) -> Seq<char> {
    seq!['0'] + (save_hash(encode_utf8(device_id), encode_utf8(auth)) + (device_id + auth))
}

/// The fields of the login request, in order (before encoding).
pub open spec fn login_params(
    account_type: Seq<char>,
    email: Seq<char>,
    passwd: Seq<char>,
    android_id: Seq<char>,
) -> Seq<(Seq<char>, Seq<char>)> {
    seq![
        ("accountType"@, account_type),
        ("Email"@, email),
        ("has_permission"@, "1"@),
        ("add_account"@, "1"@),
        ("EncryptedPasswd"@, passwd),
        ("service"@, "sj"@),
        ("source"@, "android"@),
        ("androidId"@, android_id),
        ("device_country"@, "us"@),
        ("operatorCountry"@, "us"@),
        ("lang"@, "en"@),
        ("sdk_version"@, "17"@),
    ]
}

/// The form body that logs in with an encrypted password.
pub fn login_request_body(account_type: &str, email: &str, pw: &EncryptedPw, android_id: &str) -> (r:
    String)
    requires
        base64_len(pw.pw_bytes().len()) <= usize::MAX,
    ensures
        r@ == join_amp(
            fields_of(
                login_params(
                    account_type@,
                    email@,
                    url_safe(base64_encoding(pw.pw_bytes())),
                    android_id@,
                ),
            ),
        ),
{
    let passwd = pw.to_url_safe_base64();
    let params = vec![
        ("accountType", account_type),
        ("Email", email),
        ("has_permission", "1"),
        ("add_account", "1"),
        ("EncryptedPasswd", passwd.as_str()),
        ("service", "sj"),
        ("source", "android"),
        ("androidId", android_id),
        ("device_country", "us"),
        ("operatorCountry", "us"),
        ("lang", "en"),
        ("sdk_version", "17"),
    ];
    assert(pair_views(params@) =~= login_params(account_type@, email@, passwd@, android_id@));
    form_encode(params.as_slice())
}

/// Save texts read back: the version-0 save text of a device id of sixteen
/// bytes and an auth token reads back as exactly those (given that SHA-256
/// digests are 32 bytes long, as `openssl::sha::sha256` returns them).
pub proof fn lemma_google_save_text_round_trip(d: Seq<char>, a: Seq<char>)
    requires
        utf8_len(d) == DEVICE_ID_LEN,
        sha256_digest(encode_utf8(d) + encode_utf8(a)).len() == 32,
    ensures
        read_google_save(encode_utf8(google_save_text(d, a))) == (SaveRead::Fields {
            device_id: encode_utf8(d),
            auth: encode_utf8(a),
            mt: Seq::empty(),
            email: Seq::empty(),
        }),
{
    lemma_save_hash_shape(encode_utf8(d), encode_utf8(a));
    lemma_google_save_text_reads_back(d, a);
}

/// The save text reads back once its hash is known to be twelve ASCII characters.
proof fn lemma_google_save_text_reads_back(d: Seq<char>, a: Seq<char>)
    requires
        utf8_len(d) == DEVICE_ID_LEN,
        save_hash(encode_utf8(d), encode_utf8(a)).len() == HASH_LEN,
        all_ascii(save_hash(encode_utf8(d), encode_utf8(a))),
    ensures
        read_google_save(encode_utf8(google_save_text(d, a))) == (SaveRead::Fields {
            device_id: encode_utf8(d),
            auth: encode_utf8(a),
            mt: Seq::empty(),
            email: Seq::empty(),
        }),
{
    let h = save_hash(encode_utf8(d), encode_utf8(a));
    let zero = seq!['0'];
    let x2 = d + a;
    let x1 = h + x2;
    let t = zero + x1;
    assert(t == google_save_text(d, a));
    lemma_encode_utf8_concat(zero, x1);
    lemma_encode_utf8_concat(h, x2);
    lemma_encode_utf8_concat(d, a);
    assert(all_ascii(zero));
    lemma_encode_ascii(zero);
    lemma_encode_ascii(h);
    encode_utf8_valid_utf8(x1);
    encode_utf8_valid_utf8(x2);
    encode_utf8_valid_utf8(a);
    let e0 = encode_utf8(zero);
    let eh = encode_utf8(h);
    let ed = encode_utf8(d);
    let ea = encode_utf8(a);
    let b = encode_utf8(t);
    assert(e0 =~= seq![48u8]);
    assert(b =~= e0 + encode_utf8(x1));
    lemma_cut_between(e0, encode_utf8(x1));
    assert(b =~= (e0 + eh) + encode_utf8(x2));
    lemma_cut_between(e0 + eh, encode_utf8(x2));
    assert(b =~= (e0 + eh + ed) + ea);
    lemma_cut_between(e0 + eh + ed, ea);
    assert(b.subrange(1, 13) =~= eh);
    assert(b.subrange(13, 29) =~= ed);
    assert(b.subrange(29, b.len() as int) =~= ea);
}

impl GoogleAuth {
    /// The auth token.
    pub closed spec fn auth_view(&self) -> Seq<char> {
        self.auth@
    }

    /// The device id.
    pub closed spec fn device_id_view(&self) -> Seq<char> {
        self.device_id@
    }

    /// Value of the "Authorization" header.
    pub fn authorization_value(&self) -> (r: String)
        ensures
            r@ == "GoogleLogin auth="@ + self.auth_view(),
    {
        let mut s = String::from_str("GoogleLogin auth=");
        s.append(self.auth.as_str());
        s
    }

    /// Value of the "X-Device-ID" header.
    pub fn x_device_id_value(&self) -> (r: String)
        ensures
            r@ == self.device_id_view(),
    {
        self.device_id.clone()
    }

    /// The integrity hash of a device id and a token (see `save_hash`).
    fn hash(device_id: &str, token: &str) -> (r: String)
        ensures
            r@ == save_hash(device_id.spec_bytes(), token.spec_bytes()),
            r@.len() == HASH_LEN,
            all_ascii(r@),
    {
        SJToken::hash(device_id, token)
    }

    /// Whether `from_save` may be called on `contents`: reading stays within
    /// bounds and cuts only between characters.
    pub fn save_is_readable(contents: &str) -> (r: bool)
        ensures
            r == !(read_google_save(contents.spec_bytes()) is Unreadable),
    {
        let b = contents.as_bytes();
        if !check_cut(b, 1) {
            return false;
        }
        if b[0] == 48 {
            check_cut(b, 13) && check_cut(b, 29)
        } else {
            true
        }
    }

    /// Reads the credentials back from version-0 save-file contents.
    pub fn from_save(contents: String) -> (r: Result<Self, &'static str>)
        requires
            !(read_google_save(encode_utf8(contents@)) is Unreadable),
        ensures
            match read_google_save(encode_utf8(contents@)) {
                SaveRead::Fields { device_id, auth, .. } => r matches Ok(g) && encode_utf8(
                    g.device_id_view(),
                ) == device_id && encode_utf8(g.auth_view()) == auth,
                SaveRead::Corrupt => r matches Err(m) && m@ == "corrupt data"@,
                _ => r matches Err(m) && m@ == "unknown version"@,
            },
    {
        let s = contents.as_str();
        let b = s.as_bytes();
        let ghost bb = encode_utf8(contents@);
        assert(b@ == bb);
        proof {
            lemma_str_cut(s, 1);
        }
        let (_version, tail) = s.split_at(1);
        assert(tail.spec_bytes() =~= bb.subrange(1, bb.len() as int));
        if b[0] == 48 {
            assert(cuts_at(tail.spec_bytes(), 12));
            proof {
                lemma_str_cut(tail, 12);
            }
            let (hash, tail) = tail.split_at(HASH_LEN);
            assert(tail.spec_bytes() =~= bb.subrange(13, bb.len() as int));
            assert(cuts_at(tail.spec_bytes(), 16));
            proof {
                lemma_str_cut(tail, 16);
            }
            let (device_id, auth) = tail.split_at(DEVICE_ID_LEN);
            let data_hash = GoogleAuth::hash(device_id, auth);
            assert(hash.spec_bytes() =~= bb.subrange(1, 13));
            assert(device_id.spec_bytes() =~= bb.subrange(13, 29));
            assert(auth.spec_bytes() =~= bb.subrange(29, bb.len() as int));
            if bytes_eq(hash.as_bytes(), data_hash.as_str().as_bytes()) {
                Ok(GoogleAuth { device_id: device_id.to_owned(), auth: auth.to_owned() })
            } else {
                Err("corrupt data")
            }
        } else {
            Err("unknown version")
        }
    }

    /// The version-0 save text; an error when the device id is not sixteen
    /// bytes long. The text reads back with `from_save`.
    pub fn to_save(&self) -> (r: Result<String, &'static str>)
        ensures
            utf8_len(self.device_id_view()) != DEVICE_ID_LEN ==> (r matches Err(m) && m@
                == "device id is invalid length"@),
            utf8_len(self.device_id_view()) == DEVICE_ID_LEN ==> (r matches Ok(s) && s@
                == google_save_text(self.device_id_view(), self.auth_view())),
            utf8_len(self.device_id_view()) == DEVICE_ID_LEN ==> read_google_save(
                encode_utf8(google_save_text(self.device_id_view(), self.auth_view())),
            ) == (SaveRead::Fields {
                device_id: encode_utf8(self.device_id_view()),
                auth: encode_utf8(self.auth_view()),
                mt: Seq::empty(),
                email: Seq::empty(),
            }),
    {
        if byte_len(self.device_id.as_str()) != DEVICE_ID_LEN {
            return Err("device id is invalid length");
        }
        let hash = GoogleAuth::hash(self.device_id.as_str(), self.auth.as_str());
        let mut s = String::from_str("0");
        s.append(hash.as_str());
        s.append(self.device_id.as_str());
        s.append(self.auth.as_str());
        proof {
            reveal_strlit("0");
            lemma_google_save_text_reads_back(self.device_id@, self.auth@);
        }
        assert(s@ =~= google_save_text(self.device_id@, self.auth@));
        Ok(s)
    }

    /// The credentials of a login reply: the value of its first `Auth=`
    /// word and the device id; `None` when the reply has no such word.
    pub fn from_login_reply(reply: &str, android_id: &str) -> (r: Option<GoogleAuth>)
        requires
            words_cut_cleanly(auth_search_words(words(reply@)), false),
        ensures
            match first_auth(words(reply@)) {
                Some(v) => r matches Some(g) && encode_utf8(g.auth_view()) == v
                    && g.device_id_view() == android_id@,
                None => r is None,
            },
    {
        match find_auth(reply) {
            Some(auth) => Some(GoogleAuth { auth, device_id: android_id.to_owned() }),
            None => None,
        }
    }
}

} // verus!
