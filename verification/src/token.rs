//! The SkyJam access token and its save-file text.

use vstd::prelude::*;
use vstd::string::StringSliceAdditionalSpecFns;
use vstd::utf8::{encode_utf8, encode_utf8_valid_utf8};
use crate::codec::{base64_encoding, encode_base64, lemma_base64_shape};
use crate::bytes::{hex, hex_text, lemma_hex_text_shape};
use crate::digest::{random_bytes, sha256, sha256_digest};
use crate::text::{
    all_ascii, ascii_bytes, byte_len, bytes_eq, check_cut, cuts_at, lemma_cut_between, lemma_encode_ascii,
    lemma_encode_utf8_concat, lemma_pad3_reads_back, lemma_str_cut, pad3, parse_decimal3,
    push_pad3, read_decimal3, utf8_len,
};

verus! {

/// Length of the hash prefix of the save text.
pub const HASH_LEN: usize = 12;

/// Length in bytes of a device id.
pub const DEVICE_ID_LEN: usize = 16;

/// Credentials for the SkyJam service: the auth token, the master token,
/// the account's e-mail and the device id.
pub struct SJToken {
    pub auth: String,
    pub mt: String,
    pub email: String,
    pub device_id: String,
}

/// The part of an `SJToken` that requests need.
pub struct SJAccess {
    auth: String,
    device_id: String,
}

/// Integrity hash of a save text: the first twelve characters of the Base64
/// of SHA-256 over the device id's bytes followed by the token's bytes.
pub open spec fn save_hash(device_id: Seq<u8>, token: Seq<u8>) -> Seq<char> {
    base64_encoding(sha256_digest(device_id + token)).subrange(0, HASH_LEN as int)
}

/// The version-1 save text of a token.
pub open spec fn token_text(device_id: Seq<char>, auth: Seq<char>, mt: Seq<char>, email: Seq<char>) -> Seq<char> {
    seq!['1'] + (save_hash(encode_utf8(device_id), encode_utf8(auth)) + (device_id + (pad3(
        utf8_len(auth),
    ) + (auth + (pad3(utf8_len(mt)) + (mt + email))))))
}

pub proof fn lemma_save_hash_shape(device_id: Seq<u8>, token: Seq<u8>)
    requires
        sha256_digest(device_id + token).len() == 32,
    ensures
        save_hash(device_id, token).len() == HASH_LEN,
        all_ascii(save_hash(device_id, token)),
{
    let e = base64_encoding(sha256_digest(device_id + token));
    lemma_base64_shape(sha256_digest(device_id + token));
    let h = save_hash(device_id, token);
    assert forall|i: int| 0 <= i < h.len() implies (#[trigger] h[i] as u32) < 128 by {
        assert(h[i] == e[i]);
    }
}

/// How a save text, given by its bytes, reads.
pub enum SaveRead {
    /// Cut at a place that is past the end or inside a character: reading panics.
    Unreadable,
    /// The first byte names no known version.
    UnknownVersion,
    /// A length field does not parse, or the hash does not match.
    Corrupt,
    /// The token's fields, as bytes.
    Fields { device_id: Seq<u8>, auth: Seq<u8>, mt: Seq<u8>, email: Seq<u8> },
}

/// Reading of a version-0 save text: hash, device id, then the auth token.
pub open spec fn read_v0(b: Seq<u8>) -> SaveRead {
    if !cuts_at(b, 13) || !cuts_at(b, 29) {
        SaveRead::Unreadable
    } else if b.subrange(1, 13) == encode_utf8(
        save_hash(b.subrange(13, 29), b.subrange(29, b.len() as int)),
    ) {
        SaveRead::Fields {
            device_id: b.subrange(13, 29),
            auth: b.subrange(29, b.len() as int),
            mt: Seq::empty(),
            email: Seq::empty(),
        }
    } else {
        SaveRead::Corrupt
    }
}

/// Reading of a version-1 save text: hash, device id, three-digit auth
/// length, auth token, three-digit master-token length, master token, e-mail.
pub open spec fn read_v1(b: Seq<u8>) -> SaveRead {
    if !cuts_at(b, 13) || !cuts_at(b, 29) || !cuts_at(b, 32) {
        SaveRead::Unreadable
    } else {
        match parse_decimal3(b.subrange(29, 32)) {
            None => SaveRead::Corrupt,
            Some(al) => {
                let a_end: int = 32 + al as int;
                if !cuts_at(b, a_end) || !cuts_at(b, a_end + 3) {
                    SaveRead::Unreadable
                } else {
                    match parse_decimal3(b.subrange(a_end, a_end + 3)) {
                        None => SaveRead::Corrupt,
                        Some(ml) => {
                            let m_end: int = a_end + 3 + ml;
                            if !cuts_at(b, m_end) {
                                SaveRead::Unreadable
                            } else if b.subrange(1, 13) == encode_utf8(
                                save_hash(b.subrange(13, 29), b.subrange(32, a_end)),
                            ) {
                                SaveRead::Fields {
                                    device_id: b.subrange(13, 29),
                                    auth: b.subrange(32, a_end),
                                    mt: b.subrange(a_end + 3, m_end),
                                    email: b.subrange(m_end, b.len() as int),
                                }
                            } else {
                                SaveRead::Corrupt
                            }
                        },
                    }
                }
            },
        }
    }
}

/// How the save text with bytes `b` reads: its first byte is the version.
pub open spec fn read_save_text(b: Seq<u8>) -> SaveRead {
    if !cuts_at(b, 1) {
        SaveRead::Unreadable
    } else if b[0] == 48 {
        read_v0(b)
    } else if b[0] == 49 {
        read_v1(b)
    } else {
        SaveRead::UnknownVersion
    }
}

/// What `SJToken::from_string` gives back for contents with the bytes `b`.
pub open spec fn token_read_result(b: Seq<u8>, r: Result<SJToken, &'static str>) -> bool {
    match read_save_text(b) {
        SaveRead::Unreadable => true,
        SaveRead::UnknownVersion => r matches Err(m) && m@ == "unknown version"@,
        SaveRead::Corrupt => r matches Err(m) && m@ == "corrupt data"@,
        SaveRead::Fields { device_id, auth, mt, email } => r matches Ok(t) && encode_utf8(
            t.device_id@,
        ) == device_id && encode_utf8(t.auth@) == auth && encode_utf8(t.mt@) == mt
            && encode_utf8(t.email@) == email,
    }
}

/// Save texts read back: the version-1 save text of a device id of sixteen
/// bytes, an auth token and a master token shorter than 1000 bytes each, and
/// an e-mail, reads back as exactly those fields (given that SHA-256 digests
/// are 32 bytes long, as `openssl::sha::sha256` returns them).
pub proof fn lemma_token_text_reads_back(d: Seq<char>, a: Seq<char>, m: Seq<char>, e: Seq<char>)
    requires
        utf8_len(d) == DEVICE_ID_LEN,
        utf8_len(a) < 1000,
        utf8_len(m) < 1000,
        sha256_digest(encode_utf8(d) + encode_utf8(a)).len() == 32,
    ensures
        read_save_text(encode_utf8(token_text(d, a, m, e))) == (SaveRead::Fields {
            device_id: encode_utf8(d),
            auth: encode_utf8(a),
            mt: encode_utf8(m),
            email: encode_utf8(e),
        }),
{
    lemma_save_hash_shape(encode_utf8(d), encode_utf8(a));
    lemma_text_reads_back(d, a, m, e);
}

/// The save text reads back once its hash is known to be twelve ASCII characters.
proof fn lemma_text_reads_back(d: Seq<char>, a: Seq<char>, m: Seq<char>, e: Seq<char>)
    requires
        utf8_len(d) == DEVICE_ID_LEN,
        utf8_len(a) < 1000,
        utf8_len(m) < 1000,
        save_hash(encode_utf8(d), encode_utf8(a)).len() == HASH_LEN,
        all_ascii(save_hash(encode_utf8(d), encode_utf8(a))),
    ensures
        read_save_text(encode_utf8(token_text(d, a, m, e))) == (SaveRead::Fields {
            device_id: encode_utf8(d),
            auth: encode_utf8(a),
            mt: encode_utf8(m),
            email: encode_utf8(e),
        }),
{
    let h = save_hash(encode_utf8(d), encode_utf8(a));
    let la = utf8_len(a);
    let lm = utf8_len(m);
    let p = pad3(la);
    let q = pad3(lm);
    let one = seq!['1'];
    let x6 = m + e;
    let x5 = q + x6;
    let x4 = a + x5;
    let x3 = p + x4;
    let x2 = d + x3;
    let x1 = h + x2;
    let t = one + x1;
    assert(t == token_text(d, a, m, e));
    lemma_encode_utf8_concat(one, x1);
    lemma_encode_utf8_concat(h, x2);
    lemma_encode_utf8_concat(d, x3);
    lemma_encode_utf8_concat(p, x4);
    lemma_encode_utf8_concat(a, x5);
    lemma_encode_utf8_concat(q, x6);
    lemma_encode_utf8_concat(m, e);
    lemma_pad3_reads_back(la);
    lemma_pad3_reads_back(lm);
    assert(all_ascii(one));
    lemma_encode_ascii(one);
    lemma_encode_ascii(h);
    lemma_encode_ascii(p);
    lemma_encode_ascii(q);
    encode_utf8_valid_utf8(x1);
    encode_utf8_valid_utf8(x2);
    encode_utf8_valid_utf8(x3);
    encode_utf8_valid_utf8(x4);
    encode_utf8_valid_utf8(x5);
    encode_utf8_valid_utf8(x6);
    encode_utf8_valid_utf8(e);
    let e1 = encode_utf8(one);
    let eh = encode_utf8(h);
    let ed = encode_utf8(d);
    let ep = encode_utf8(p);
    let ea = encode_utf8(a);
    let eq = encode_utf8(q);
    let em = encode_utf8(m);
    let ee = encode_utf8(e);
    let b = encode_utf8(t);
    assert(b =~= e1 + (eh + (ed + (ep + (ea + (eq + (em + ee)))))));
    assert(e1 =~= seq![49u8]);
    let a_end: int = 32 + la as int;
    let m_end: int = a_end + 3 + lm as int;
    assert(b =~= e1 + encode_utf8(x1));
    lemma_cut_between(e1, encode_utf8(x1));
    assert(b =~= (e1 + eh) + encode_utf8(x2));
    lemma_cut_between(e1 + eh, encode_utf8(x2));
    assert(b =~= (e1 + eh + ed) + encode_utf8(x3));
    lemma_cut_between(e1 + eh + ed, encode_utf8(x3));
    assert(b =~= (e1 + eh + ed + ep) + encode_utf8(x4));
    lemma_cut_between(e1 + eh + ed + ep, encode_utf8(x4));
    assert(b =~= (e1 + eh + ed + ep + ea) + encode_utf8(x5));
    lemma_cut_between(e1 + eh + ed + ep + ea, encode_utf8(x5));
    assert(b =~= (e1 + eh + ed + ep + ea + eq) + encode_utf8(x6));
    lemma_cut_between(e1 + eh + ed + ep + ea + eq, encode_utf8(x6));
    assert(b =~= (e1 + eh + ed + ep + ea + eq + em) + ee);
    lemma_cut_between(e1 + eh + ed + ep + ea + eq + em, ee);
    assert(b.subrange(1, 13) =~= eh);
    assert(b.subrange(13, 29) =~= ed);
    assert(b.subrange(29, 32) =~= ep);
    assert(b.subrange(32, a_end) =~= ea);
    assert(b.subrange(a_end, a_end + 3) =~= eq);
    assert(b.subrange(a_end + 3, m_end) =~= em);
    assert(b.subrange(m_end, b.len() as int) =~= ee);
    assert(ep == ascii_bytes(p));
    assert(eq == ascii_bytes(q));
}

/// Generated device ids can be saved: the hexadecimal text of eight bytes is
/// sixteen bytes long, the length that `SJToken::to_string` asks of a device id.
pub proof fn lemma_hex_device_id_length(b: Seq<u8>)
    requires
        b.len() == DEVICE_ID_LEN / 2,
    ensures
        utf8_len(hex_text(b)) == DEVICE_ID_LEN,
{
    lemma_hex_text_shape(b);
    lemma_encode_ascii(hex_text(b));
}

/// A fresh device id: sixteen lowercase hexadecimal digits of eight random
/// bytes from OpenSSL; `None` when OpenSSL cannot supply them.
pub fn generate_device_id() -> (r: Option<String>)
    ensures
        r matches Some(id) ==> utf8_len(id@) == DEVICE_ID_LEN && exists|b: Seq<u8>|
            b.len() == DEVICE_ID_LEN / 2 && id@ == #[trigger] hex_text(b),
{
    match random_bytes(DEVICE_ID_LEN / 2) {
        Some(buf) => {
            let id = hex(buf.as_slice());
            proof {
                lemma_hex_device_id_length(buf@);
            }
            Some(id)
        },
        None => None,
    }
}

/// What reading a save file found.
pub enum SaveState {
    NoneFound,
    Corrupt,
    Found(SJToken),
}

/// Whether reading the save text `contents` stays within bounds and cuts
/// only between characters, i.e. whether `SJToken::from_string` may be called.
pub fn save_text_is_readable(contents: &str) -> (r: bool)
    ensures
        r == !(read_save_text(contents.spec_bytes()) is Unreadable),
{
    let b = contents.as_bytes();
    if !check_cut(b, 1) {
        return false;
    }
    if b[0] == 48 {
        check_cut(b, 13) && check_cut(b, 29)
    } else if b[0] == 49 {
        if !(check_cut(b, 13) && check_cut(b, 29) && check_cut(b, 32)) {
            return false;
        }
        let auth_len = match read_decimal3(vstd::slice::slice_subrange(b, 29, 32)) {
            Some(n) => n,
            None => {
                return true;
            },
        };
        let a_end = 32 + auth_len;
        if !(check_cut(b, a_end) && check_cut(b, a_end + 3)) {
            return false;
        }
        let mt_len = match read_decimal3(vstd::slice::slice_subrange(b, a_end, a_end + 3)) {
            Some(n) => n,
            None => {
                return true;
            },
        };
        check_cut(b, a_end + 3 + mt_len)
    } else {
        true
    }
}

/// The outcome of reading the save-file contents `contents`: the token when
/// it reads back, `Corrupt` when it does not.
pub fn save_state_from_contents(contents: String) -> (r: SaveState)
    requires
        !(read_save_text(encode_utf8(contents@)) is Unreadable),
    ensures
        match read_save_text(encode_utf8(contents@)) {
            SaveRead::Fields { device_id, auth, mt, email } => r matches SaveState::Found(t)
                && encode_utf8(t.device_id@) == device_id && encode_utf8(t.auth@) == auth
                && encode_utf8(t.mt@) == mt && encode_utf8(t.email@) == email,
            _ => r is Corrupt,
        },
{
    match SJToken::from_string(contents) {
        Ok(t) => SaveState::Found(t),
        Err(_) => SaveState::Corrupt,
    }
}

impl SJAccess {
    /// The access's auth token.
    pub closed spec fn auth_view(&self) -> Seq<char> {
        self.auth@
    }

    /// The access's device id.
    pub closed spec fn device_id_view(&self) -> Seq<char> {
        self.device_id@
    }

    /// Value of the "Authorization" header.
    pub fn authorization_value(&self) -> (r: String)
        ensures
            r@ == "GoogleLogin auth="@ + self.auth_view(),
    {
        let mut s = String::from_str("GoogleLogin auth=");
        s.append(self.auth.as_str());
        s
    }

    /// Value of the "X-Device-ID" header.
    pub fn x_device_id_value(&self) -> (r: String)
        ensures
            r@ == self.device_id_view(),
    {
        self.device_id.clone()
    }
}

impl SJToken {
    /// The auth token and device id, without the master token and e-mail.
    pub fn access_only(&self) -> (r: SJAccess)
        ensures
            r.auth_view() == self.auth@,
            r.device_id_view() == self.device_id@,
    {
        SJAccess { auth: self.auth.clone(), device_id: self.device_id.clone() }
    }

    /// A token made of copies of the given texts.
    pub fn new(mt: &str, auth: &str, email: &str, device_id: &str) -> (r: Self)
        ensures
            r.auth@ == auth@,
            r.mt@ == mt@,
            r.email@ == email@,
            r.device_id@ == device_id@,
    {
        SJToken {
            auth: auth.to_owned(),
            mt: mt.to_owned(),
            device_id: device_id.to_owned(),
            email: email.to_owned(),
        }
    }

    /// The integrity hash of a device id and a token (see `save_hash`).
    pub(crate) fn hash(device_id: &str, token: &str) -> (r: String)
        ensures
            r@ == save_hash(device_id.spec_bytes(), token.spec_bytes()),
            r@.len() == HASH_LEN,
            all_ascii(r@),
    {
        let mut data = vstd::slice::slice_to_vec(device_id.as_bytes());
        let mut rest = vstd::slice::slice_to_vec(token.as_bytes());
        data.append(&mut rest);
        let digest = sha256(data.as_slice());
        proof {
            lemma_base64_shape(digest@);
        }
        let encoded = encode_base64(digest.as_slice());
        proof {
            lemma_save_hash_shape(device_id.spec_bytes(), token.spec_bytes());
        }
        encoded.as_str().substring_char(0, HASH_LEN).to_owned()
    }

    /// Reads a token back from save-file contents of version 0 or 1.
    #[verifier::rlimit(60)]
    pub fn from_string(contents: String) -> (r: Result<Self, &'static str>)
        requires
            !(read_save_text(encode_utf8(contents@)) is Unreadable),
        ensures
            token_read_result(encode_utf8(contents@), r),
    {
        let s = contents.as_str();
        let b = s.as_bytes();
        let ghost bb = encode_utf8(contents@);
        assert(b@ == bb);
        proof {
            lemma_str_cut(s, 1);
        }
        let (_version, tail) = s.split_at(1);
        assert(tail.spec_bytes() =~= bb.subrange(1, bb.len() as int));
        if b[0] == 48 {
            assert(cuts_at(tail.spec_bytes(), 12));
            proof {
                lemma_str_cut(tail, 12);
            }
            let (hash, tail) = tail.split_at(HASH_LEN);
            assert(tail.spec_bytes() =~= bb.subrange(13, bb.len() as int));
            assert(cuts_at(tail.spec_bytes(), 16));
            proof {
                lemma_str_cut(tail, 16);
            }
            let (device_id, auth) = tail.split_at(DEVICE_ID_LEN);
            let data_hash = SJToken::hash(device_id, auth);
            assert(hash.spec_bytes() =~= bb.subrange(1, 13));
            assert(device_id.spec_bytes() =~= bb.subrange(13, 29));
            assert(auth.spec_bytes() =~= bb.subrange(29, bb.len() as int));
            if bytes_eq(hash.as_bytes(), data_hash.as_str().as_bytes()) {
                Ok(SJToken {
                    device_id: device_id.to_owned(),
                    auth: auth.to_owned(),
                    mt: String::new(),
                    email: String::new(),
                })
            } else {
                Err("corrupt data")
            }
        } else if b[0] == 49 {
            assert(cuts_at(tail.spec_bytes(), 12));
            proof {
                lemma_str_cut(tail, 12);
            }
            let (hash, tail) = tail.split_at(HASH_LEN);
            assert(tail.spec_bytes() =~= bb.subrange(13, bb.len() as int));
            assert(cuts_at(tail.spec_bytes(), 16));
            proof {
                lemma_str_cut(tail, 16);
            }
            let (device_id, tail) = tail.split_at(DEVICE_ID_LEN);
            assert(tail.spec_bytes() =~= bb.subrange(29, bb.len() as int));
            assert(cuts_at(tail.spec_bytes(), 3));
            proof {
                lemma_str_cut(tail, 3);
            }
            let (auth_len_b, tail) = tail.split_at(3);
            assert(auth_len_b.spec_bytes() =~= bb.subrange(29, 32));
            assert(tail.spec_bytes() =~= bb.subrange(32, bb.len() as int));
            let auth_len = match read_decimal3(auth_len_b.as_bytes()) {
                Some(n) => n,
                None => {
                    return Err("corrupt data");
                },
            };
            let ghost a_end: int = 32 + auth_len;
            assert(cuts_at(tail.spec_bytes(), auth_len as int));
            proof {
                lemma_str_cut(tail, auth_len as int);
            }
            let (auth, tail) = tail.split_at(auth_len);
            assert(auth.spec_bytes() =~= bb.subrange(32, a_end));
            assert(tail.spec_bytes() =~= bb.subrange(a_end, bb.len() as int));
            assert(cuts_at(tail.spec_bytes(), 3));
            proof {
                lemma_str_cut(tail, 3);
            }
            let (mt_len_b, tail) = tail.split_at(3);
            assert(mt_len_b.spec_bytes() =~= bb.subrange(a_end, a_end + 3));
            assert(tail.spec_bytes() =~= bb.subrange(a_end + 3, bb.len() as int));
            let mt_len = match read_decimal3(mt_len_b.as_bytes()) {
                Some(n) => n,
                None => {
                    return Err("corrupt data");
                },
            };
            let ghost m_end: int = a_end + 3 + mt_len;
            assert(cuts_at(tail.spec_bytes(), mt_len as int));
            proof {
                lemma_str_cut(tail, mt_len as int);
            }
            let (mt, email) = tail.split_at(mt_len);
            assert(mt.spec_bytes() =~= bb.subrange(a_end + 3, m_end));
            assert(email.spec_bytes() =~= bb.subrange(m_end, bb.len() as int));
            let data_hash = SJToken::hash(device_id, auth);
            assert(hash.spec_bytes() =~= bb.subrange(1, 13));
            assert(device_id.spec_bytes() =~= bb.subrange(13, 29));
            if bytes_eq(hash.as_bytes(), data_hash.as_str().as_bytes()) {
                Ok(SJToken {
                    device_id: device_id.to_owned(),
                    auth: auth.to_owned(),
                    mt: mt.to_owned(),
                    email: email.to_owned(),
                })
            } else {
                Err("corrupt data")
            }
        } else {
            Err("unknown version")
        }
    }

    /// The version-1 save text; an error when the device id is not sixteen bytes long.
    pub fn to_string(&self) -> (r: Result<String, &'static str>)
        ensures
            utf8_len(self.device_id@) != DEVICE_ID_LEN ==> (r matches Err(m) && m@
                == "device id is invalid length"@),
            utf8_len(self.device_id@) == DEVICE_ID_LEN ==> (r matches Ok(s) && s@ == token_text(
                self.device_id@,
                self.auth@,
                self.mt@,
                self.email@,
            )),
            utf8_len(self.device_id@) == DEVICE_ID_LEN && utf8_len(self.auth@) < 1000 && utf8_len(
                self.mt@,
            ) < 1000 ==> read_save_text(
                encode_utf8(token_text(self.device_id@, self.auth@, self.mt@, self.email@)),
            ) == (SaveRead::Fields {
                device_id: encode_utf8(self.device_id@),
                auth: encode_utf8(self.auth@),
                mt: encode_utf8(self.mt@),
                email: encode_utf8(self.email@),
            }),
    {
        if byte_len(self.device_id.as_str()) != DEVICE_ID_LEN {
            return Err("device id is invalid length");
        }
        let hash = SJToken::hash(self.device_id.as_str(), self.auth.as_str());
        let mut s = String::from_str("1");
        s.append(hash.as_str());
        s.append(self.device_id.as_str());
        push_pad3(&mut s, byte_len(self.auth.as_str()));
        s.append(self.auth.as_str());
        push_pad3(&mut s, byte_len(self.mt.as_str()));
        s.append(self.mt.as_str());
        s.append(self.email.as_str());
        proof {
            reveal_strlit("1");
        }
        assert(s@ =~= token_text(self.device_id@, self.auth@, self.mt@, self.email@));
        proof {
            if utf8_len(self.auth@) < 1000 && utf8_len(self.mt@) < 1000 {
                lemma_text_reads_back(self.device_id@, self.auth@, self.mt@, self.email@);
            }
        }
        Ok(s)
    }
}

} // verus!
