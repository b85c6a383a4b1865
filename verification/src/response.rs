//! Reading `Key=value` words out of the plain-text reply of the login service.

use vstd::prelude::*;
use vstd::string::StringSliceAdditionalSpecFns;
use vstd::utf8::encode_utf8;
use crate::text::{check_cut, cuts_at, lemma_str_cut};

verus! {

/// The Unicode `White_Space` characters, which `char::is_whitespace` accepts.
pub open spec fn is_white_space(c: char) -> bool {
    let u = c as u32;
    ||| 9 <= u <= 13
    ||| u == 0x20
    ||| u == 0x85
    ||| u == 0xa0
    ||| u == 0x1680
    ||| 0x2000 <= u <= 0x200a
    ||| u == 0x2028
    ||| u == 0x2029
    ||| u == 0x202f
    ||| u == 0x205f
    ||| u == 0x3000
}

/// Whether `c` is Unicode white space (as `char::is_whitespace` decides).
pub fn is_whitespace(c: char) -> (r: bool)
    ensures
        r == is_white_space(c),
{
    let u = c as u32;
    (9 <= u && u <= 13) || u == 0x20 || u == 0x85 || u == 0xa0 || u == 0x1680 || (0x2000 <= u && u
        <= 0x200a) || u == 0x2028 || u == 0x2029 || u == 0x202f || u == 0x205f || u == 0x3000
}

/// The words found so far in `s`, and the word being read at its end.
pub open spec fn split_state(s: Seq<char>) -> (Seq<Seq<char>>, Seq<char>)
    decreases s.len(),
{
    if s.len() == 0 {
        (seq![], seq![])
    } else {
        let (ws, cur) = split_state(s.drop_last());
        if is_white_space(s.last()) {
            if cur.len() > 0 {
                (ws.push(cur), seq![])
            } else {
                (ws, seq![])
            }
        } else {
            (ws, cur.push(s.last()))
        }
    }
}

/// The non-empty runs of non-white-space characters of `s`, in order
/// (what `str::split_whitespace` yields).
pub open spec fn words(s: Seq<char>) -> Seq<Seq<char>> {
    let (ws, cur) = split_state(s);
    if cur.len() > 0 {
        ws.push(cur)
    } else {
        ws
    }
}

/// The views of a list of strings.
pub open spec fn string_views(v: Seq<String>) -> Seq<Seq<char>> {
    v.map_values(|s: String| s@)
}

/// The words of `s` (see `words`).
pub fn split_whitespace(s: &str) -> (r: Vec<String>)
    ensures
        string_views(r@) == words(s@),
{
    let n = s.unicode_len();
    let mut out: Vec<String> = Vec::new();
    let mut start: usize = 0;
    let mut i: usize = 0;
    while i < n
        invariant
            n == s@.len(),
            start <= i <= n,
            split_state(s@.subrange(0, i as int)) == (string_views(out@), s@.subrange(
                start as int,
                i as int,
            )),
        decreases n - i,
    {
        let c = s.get_char(i);
        let ghost prefix = s@.subrange(0, i + 1);
        assert(prefix.drop_last() =~= s@.subrange(0, i as int));
        assert(prefix.last() == c);
        if is_whitespace(c) {
            if start < i {
                let w = s.substring_char(start, i).to_owned();
                let ghost old_views = string_views(out@);
                out.push(w);
                assert(string_views(out@) =~= old_views.push(s@.subrange(start as int, i as int)));
            }
            start = i + 1;
        } else {
            assert(s@.subrange(start as int, i + 1) =~= s@.subrange(start as int, i as int).push(c));
        }
        i = i + 1;
        assert(s@.subrange(start as int, i as int) =~= s@.subrange(start as int, i as int));
    }
    assert(s@.subrange(0, n as int) =~= s@);
    if start < n {
        let w = s.substring_char(start, n).to_owned();
        let ghost old_views = string_views(out@);
        out.push(w);
        assert(string_views(out@) =~= old_views.push(s@.subrange(start as int, n as int)));
    }
    out
}

/// The bytes of `Auth=`.
pub open spec fn auth_key() -> Seq<u8> {
    seq![65u8, 117u8, 116u8, 104u8, 61u8]
}

/// The bytes of `Token=`.
pub open spec fn token_key() -> Seq<u8> {
    seq![84u8, 111u8, 107u8, 101u8, 110u8, 61u8]
}

/// What follows `key` in the word with bytes `b`, when `b` is longer than
/// five bytes and starts with `key`.
pub open spec fn value_after(b: Seq<u8>, key: Seq<u8>) -> Option<Seq<u8>> {
    if b.len() > 5 && b.len() >= key.len() && b.subrange(0, key.len() as int) == key {
        Some(b.subrange(key.len() as int, b.len() as int))
    } else {
        None
    }
}

/// True when the word `w` is longer than five bytes and cutting it at byte
/// five (or, when `also_six`, at byte six) would split a character.
pub open spec fn word_bad(w: Seq<char>, also_six: bool) -> bool {
    encode_utf8(w).len() > 5 && !(cuts_at(encode_utf8(w), 5) && (also_six ==> cuts_at(
        encode_utf8(w),
        6,
    )))
}

/// True when none of the words is `word_bad`.
pub open spec fn words_cut_cleanly(ws: Seq<Seq<char>>, also_six: bool) -> bool {
    forall|i: int| 0 <= i < ws.len() ==> !word_bad(#[trigger] ws[i], also_six)
}

/// Index of the first word that starts with `Auth=` (the number of words
/// when there is none).
pub open spec fn first_auth_index(ws: Seq<Seq<char>>) -> nat
    decreases ws.len(),
{
    if ws.len() == 0 {
        0
    } else if value_after(encode_utf8(ws[0]), auth_key()) is Some {
        0
    } else {
        1 + first_auth_index(ws.drop_first())
    }
}

/// The words that the search for the first `Auth=` word examines: those up
/// to and including it.
pub open spec fn auth_search_words(ws: Seq<Seq<char>>) -> Seq<Seq<char>> {
    if first_auth_index(ws) < ws.len() {
        ws.subrange(0, first_auth_index(ws) as int + 1)
    } else {
        ws
    }
}

/// The value (as bytes) of the first word that starts with `Auth=`.
pub open spec fn first_auth(ws: Seq<Seq<char>>) -> Option<Seq<u8>>
    decreases ws.len(),
{
    if ws.len() == 0 {
        None
    } else {
        match value_after(encode_utf8(ws[0]), auth_key()) {
            Some(v) => Some(v),
            None => first_auth(ws.drop_first()),
        }
    }
}

/// The value (as bytes) of the last word that starts with `key`.
pub open spec fn last_value(ws: Seq<Seq<char>>, key: Seq<u8>) -> Option<Seq<u8>>
    decreases ws.len(),
{
    if ws.len() == 0 {
        None
    } else {
        match value_after(encode_utf8(ws.last()), key) {
            Some(v) => Some(v),
            None => last_value(ws.drop_last(), key),
        }
    }
}

/// What follows the first `key.len()` bytes of `w`, when `w` is longer than
/// five bytes and starts with `key`.
fn split_value(w: &str, key: &[u8]) -> (r: Option<String>)
    requires
        1 <= key@.len() <= 6,
        encode_utf8(w@).len() > 5 ==> cuts_at(encode_utf8(w@), key@.len() as int),
    ensures
        match value_after(encode_utf8(w@), key@) {
            Some(v) => r matches Some(s) && encode_utf8(s@) == v,
            None => r is None,
        },
{
    let b = w.as_bytes();
    let k = key.len();
    if b.len() <= 5 || b.len() < k {
        return None;
    }
    let mut j: usize = 0;
    while j < k
        invariant
            k == key@.len(),
            k <= b@.len(),
            b@ == encode_utf8(w@),
            b@.len() > 5,
            j <= k,
            forall|x: int| 0 <= x < j ==> b@[x] == key@[x],
        decreases k - j,
    {
        if b[j] != key[j] {
            assert(b@.subrange(0, k as int)[j as int] != key@[j as int]);
            return None;
        }
        j = j + 1;
    }
    assert(b@.subrange(0, k as int) =~= key@);
    proof {
        lemma_str_cut(w, k as int);
    }
    let (_, value) = w.split_at(k);
    Some(value.to_owned())
}

/// The value after `Auth=` in the first word of `resp` that starts with it
/// (the word-by-word search of the login reply).
pub fn find_auth(resp: &str) -> (r: Option<String>)
    requires
        words_cut_cleanly(auth_search_words(words(resp@)), false),
    ensures
        match first_auth(words(resp@)) {
            Some(v) => r matches Some(s) && encode_utf8(s@) == v,
            None => r is None,
        },
{
    let ws = split_whitespace(resp);
    let ghost all = words(resp@);
    let mut i: usize = 0;
    assert(all.subrange(0, all.len() as int) =~= all);
    while i < ws.len()
        invariant
            all == words(resp@),
            string_views(ws@) == all,
            i <= ws@.len(),
            first_auth(all) == first_auth(all.subrange(i as int, all.len() as int)),
            first_auth_index(all) == i + first_auth_index(all.subrange(i as int, all.len() as int)),
            words_cut_cleanly(auth_search_words(all), false),
            i <= first_auth_index(all),
        decreases ws@.len() - i,
    {
        let w = ws[i].as_str();
        assert(w@ == all[i as int]);
        let ghost rest = all.subrange(i as int, all.len() as int);
        assert(rest[0] == all[i as int]);
        assert(rest.drop_first() =~= all.subrange(i + 1, all.len() as int));
        assert(auth_search_words(all)[i as int] == all[i as int]);
        let b = w.as_bytes();
        if b.len() > 5 {
            assert(cuts_at(b@, 5));
        }
        let key: [u8; 5] = [65u8, 117u8, 116u8, 104u8, 61u8];
        assert(key@ =~= auth_key());
        let found = split_value(w, key.as_slice());
        if found.is_some() {
            assert(value_after(encode_utf8(rest[0]), auth_key()) is Some);
            assert(first_auth(rest) == value_after(encode_utf8(rest[0]), auth_key()));
            return found;
        }
        assert(value_after(encode_utf8(rest[0]), auth_key()) is None);
        assert(first_auth(rest) == first_auth(rest.drop_first()));
        assert(first_auth_index(rest) == 1 + first_auth_index(rest.drop_first()));
        i = i + 1;
    }
    assert(all.subrange(i as int, all.len() as int).len() == 0);
    None
}

/// The values after `Auth=` and, when `with_token`, after `Token=` in the
/// last words of `resp` that start with them (the full scan of a reply).
pub fn find_last_values(resp: &str, with_token: bool) -> (r: (Option<String>, Option<String>))
    requires
        words_cut_cleanly(words(resp@), with_token),
    ensures
        match last_value(words(resp@), auth_key()) {
            Some(v) => r.0 matches Some(s) && encode_utf8(s@) == v,
            None => r.0 is None,
        },
        with_token ==> match last_value(words(resp@), token_key()) {
            Some(v) => r.1 matches Some(s) && encode_utf8(s@) == v,
            None => r.1 is None,
        },
        !with_token ==> r.1 is None,
{
    let ws = split_whitespace(resp);
    let ghost all = words(resp@);
    let auth_k: [u8; 5] = [65u8, 117u8, 116u8, 104u8, 61u8];
    let token_k: [u8; 6] = [84u8, 111u8, 107u8, 101u8, 110u8, 61u8];
    assert(auth_k@ =~= auth_key());
    assert(token_k@ =~= token_key());
    let mut auth: Option<String> = None;
    let mut token: Option<String> = None;
    let mut i: usize = 0;
    assert(all.subrange(0, 0) =~= Seq::<Seq<char>>::empty());
    while i < ws.len()
        invariant
            all == words(resp@),
            string_views(ws@) == all,
            i <= ws@.len(),
            words_cut_cleanly(all, with_token),
            auth_k@ == auth_key(),
            token_k@ == token_key(),
            !with_token ==> token is None,
            match last_value(all.subrange(0, i as int), auth_key()) {
                Some(v) => auth matches Some(s) && encode_utf8(s@) == v,
                None => auth is None,
            },
            with_token ==> match last_value(all.subrange(0, i as int), token_key()) {
                Some(v) => token matches Some(s) && encode_utf8(s@) == v,
                None => token is None,
            },
        decreases ws@.len() - i,
    {
        let w = ws[i].as_str();
        assert(w@ == all[i as int]);
        let ghost next = all.subrange(0, i + 1);
        assert(next.drop_last() =~= all.subrange(0, i as int));
        assert(next.last() == w@);
        let a = split_value(w, auth_k.as_slice());
        if a.is_some() {
            auth = a;
        }
        if with_token {
            let t = split_value(w, token_k.as_slice());
            if t.is_some() {
                token = t;
            }
        }
        i = i + 1;
    }
    assert(all.subrange(0, all.len() as int) =~= all);
    (auth, token)
}

/// Whether the words of `resp` that a search examines can all be cut at
/// byte five (and, when `also_six`, at byte six) without splitting a
/// character: with `first_only`, the words up to the first `Auth=` word;
/// otherwise all of them.
pub fn reply_cuts_cleanly(resp: &str, first_only: bool, also_six: bool) -> (r: bool)
    ensures
        first_only ==> r == words_cut_cleanly(auth_search_words(words(resp@)), also_six),
        !first_only ==> r == words_cut_cleanly(words(resp@), also_six),
{
    let ws = split_whitespace(resp);
    let ghost all = words(resp@);
    let auth_k: [u8; 5] = [65u8, 117u8, 116u8, 104u8, 61u8];
    assert(auth_k@ =~= auth_key());
    let mut i: usize = 0;
    assert(all.subrange(0, all.len() as int) =~= all);
    while i < ws.len()
        invariant
            all == words(resp@),
            string_views(ws@) == all,
            auth_k@ == auth_key(),
            i <= ws@.len(),
            first_only ==> first_auth_index(all) == i + first_auth_index(
                all.subrange(i as int, all.len() as int),
            ),
            forall|j: int| 0 <= j < i ==> !word_bad(#[trigger] all[j], also_six),
        decreases ws@.len() - i,
    {
        let w = ws[i].as_str();
        assert(w@ == all[i as int]);
        let ghost rest = all.subrange(i as int, all.len() as int);
        assert(rest[0] == all[i as int]);
        assert(rest.drop_first() =~= all.subrange(i + 1, all.len() as int));
        let b = w.as_bytes();
        if b.len() > 5 && !(check_cut(b, 5) && (!also_six || check_cut(b, 6))) {
            proof {
                if first_only {
                    assert(auth_search_words(all)[i as int] == all[i as int]);
                }
            }
            return false;
        }
        if first_only {
            let found = split_value(w, auth_k.as_slice());
            if found.is_some() {
                proof {
                    let ex = auth_search_words(all);
                    assert(first_auth_index(all) == i);
                    assert forall|j: int| 0 <= j < ex.len() implies !word_bad(#[trigger] ex[j], also_six) by {
                        assert(ex[j] == all[j]);
                    }
                }
                return true;
            }
            assert(first_auth_index(rest) == 1 + first_auth_index(rest.drop_first()));
        }
        i = i + 1;
    }
    proof {
        if first_only {
            assert(first_auth_index(all.subrange(i as int, all.len() as int)) == 0);
            assert(auth_search_words(all) == all);
        }
    }
    true
}

/// Whether an HTTP status code reports success: 200 to 299, the range that
/// `http_req`'s `StatusCode::is_success` checks.
pub fn is_success_status(code: u16) -> (r: bool)
    ensures
        r == (200 <= code && code < 300),
{
    200 <= code && code < 300
}

} // verus!
