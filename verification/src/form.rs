//! `key=value&...` texts for form bodies and URL query strings, with values
//! percent-encoded by the `percent-encoding` crate.

use vstd::prelude::*;
use vstd::string::StringSliceAdditionalSpecFns;
use vstd::utf8::encode_utf8;

verus! {

/// True for the bytes that `percent_encoding::USERINFO_ENCODE_SET` encodes:
/// controls, non-ASCII bytes, and ` "#<>`?{}/:;=@[\]^|`.
pub open spec fn in_userinfo_set(b: u8) -> bool {
    ||| b < 0x20
    ||| b > 0x7e
    ||| b == 0x20  // ' '
    ||| b == 0x22  // '"'
    ||| b == 0x23  // '#'
    ||| b == 0x3c  // '<'
    ||| b == 0x3e  // '>'
    ||| b == 0x60  // '`'
    ||| b == 0x3f  // '?'
    ||| b == 0x7b  // '{'
    ||| b == 0x7d  // '}'
    ||| b == 0x2f  // '/'
    ||| b == 0x3a  // ':'
    ||| b == 0x3b  // ';'
    ||| b == 0x3d  // '='
    ||| b == 0x40  // '@'
    ||| b == 0x5b  // '['
    ||| b == 0x5c  // '\'
    ||| b == 0x5d  // ']'
    ||| b == 0x5e  // '^'
    ||| b == 0x7c  // '|'
}

/// The uppercase hexadecimal digit for `d` (for `d` in `0..16`).
pub open spec fn hex_upper(d: nat) -> char {
    if d < 10 {
        ((48 + d) as u8) as char
    } else {
        ((55 + d) as u8) as char
    }
}

/// Percent-encoding of the bytes `b` with `USERINFO_ENCODE_SET`: each byte of
/// the set becomes `%XX` (uppercase hexadecimal), every other byte stays as
/// its ASCII character.
pub open spec fn percent_encoding(b: Seq<u8>) -> Seq<char>
    decreases b.len(),
{
    if b.len() == 0 {
        seq![]
    } else if in_userinfo_set(b.last()) {
        percent_encoding(b.drop_last()) + seq![
            '%',
            hex_upper(b.last() as nat / 16),
            hex_upper(b.last() as nat % 16),
        ]
    } else {
        percent_encoding(b.drop_last()) + seq![b.last() as char]
    }
}

/// `utf8_percent_encode(p, USERINFO_ENCODE_SET).to_string()` from the
/// `percent-encoding` crate: the contract restates the whole encoding.
#[verifier::external_body]
pub(crate) fn percent_encoded(p: &str) -> (r: String)
    ensures
        r@ == percent_encoding(p.spec_bytes()),
{
    percent_encoding::utf8_percent_encode(p, percent_encoding::USERINFO_ENCODE_SET).to_string()
}

/// One `key=value` field, with the value percent-encoded.
pub open spec fn form_field(key: Seq<char>, value: Seq<char>) -> Seq<char> {
    key + seq!['='] + percent_encoding(encode_utf8(value))
}

/// The texts joined with `&` between them.
pub open spec fn join_amp(parts: Seq<Seq<char>>) -> Seq<char>
    decreases parts.len(),
{
    if parts.len() == 0 {
        seq![]
    } else if parts.len() == 1 {
        parts[0]
    } else {
        join_amp(parts.drop_last()) + seq!['&'] + parts.last()
    }
}

/// The fields of the key/value pairs (by view).
pub open spec fn fields_of(pairs: Seq<(Seq<char>, Seq<char>)>) -> Seq<Seq<char>> {
    pairs.map_values(|p: (Seq<char>, Seq<char>)| form_field(p.0, p.1))
}

/// The pairs of texts, by view.
pub open spec fn pair_views(pairs: Seq<(&str, &str)>) -> Seq<(Seq<char>, Seq<char>)> {
    pairs.map_values(|p: (&str, &str)| (p.0@, p.1@))
}

/// The pairs whose value is not empty.
pub open spec fn nonempty_values(pairs: Seq<(Seq<char>, Seq<char>)>) -> Seq<(Seq<char>, Seq<char>)> {
    pairs.filter(|p: (Seq<char>, Seq<char>)| p.1.len() > 0)
}

/// The query text of key/value pairs (by view): the fields of the pairs
/// whose value is not empty, joined with `&` (what `query_string` gives).
pub open spec fn query_text(pairs: Seq<(Seq<char>, Seq<char>)>) -> Seq<char> {
    join_amp(fields_of(nonempty_values(pairs)))
}

/// Joining two non-empty lists of texts puts one `&` between their joins.
proof fn lemma_join_amp_concat(p: Seq<Seq<char>>, q: Seq<Seq<char>>)
    requires
        p.len() > 0,
        q.len() > 0,
    ensures
        join_amp(p + q) == join_amp(p) + seq!['&'] + join_amp(q),
    decreases q.len(),
{
    if q.len() == 1 {
        assert((p + q).drop_last() =~= p);
        assert((p + q).last() == q[0]);
    } else {
        lemma_join_amp_concat(p, q.drop_last());
        assert((p + q).drop_last() =~= p + q.drop_last());
        assert((p + q).last() == q.last());
        assert(join_amp(p + q) =~= join_amp(p) + seq!['&'] + join_amp(q));
    }
}

/// The join of a non-empty list of fields is not empty, and the join of no
/// fields is.
proof fn lemma_query_text_empty(pairs: Seq<(Seq<char>, Seq<char>)>)
    ensures
        query_text(pairs).len() == 0 <==> nonempty_values(pairs).len() == 0,
{
    let f = fields_of(nonempty_values(pairs));
    if f.len() > 0 {
        assert(f.last().len() > 0);
        if f.len() > 1 {
            assert(join_amp(f) == join_amp(f.drop_last()) + seq!['&'] + f.last());
        }
    }
}

/// Query strings concatenate: the query text of the pairs `a` followed by
/// the pairs `b` is that of `a`, then that of `b`, with one `&` between them
/// when both are non-empty. In particular a pair with an empty value changes
/// nothing.
pub proof fn lemma_query_text_concat(a: Seq<(&str, &str)>, b: Seq<(&str, &str)>)
    ensures
        query_text(pair_views(a + b)) == (if query_text(pair_views(a)).len() == 0 {
            query_text(pair_views(b))
        } else if query_text(pair_views(b)).len() == 0 {
            query_text(pair_views(a))
        } else {
            query_text(pair_views(a)) + seq!['&'] + query_text(pair_views(b))
        }),
{
    let va = pair_views(a);
    let vb = pair_views(b);
    assert(pair_views(a + b) =~= va + vb);
    let pred = |p: (Seq<char>, Seq<char>)| p.1.len() > 0;
    Seq::filter_distributes_over_add(va, vb, pred);
    let na = nonempty_values(va);
    let nb = nonempty_values(vb);
    assert(nonempty_values(va + vb) == na + nb);
    assert(fields_of(na + nb) =~= fields_of(na) + fields_of(nb));
    lemma_query_text_empty(va);
    lemma_query_text_empty(vb);
    if na.len() == 0 {
        assert(na + nb =~= nb);
    } else if nb.len() == 0 {
        assert(na + nb =~= na);
    } else {
        lemma_join_amp_concat(fields_of(na), fields_of(nb));
    }
}

/// `key=value` fields, joined with `&`, for every pair.
pub fn form_encode(params: &[(&str, &str)]) -> (r: String)
    ensures
        r@ == join_amp(fields_of(pair_views(params@))),
{
    let mut s = String::new();
    let mut i: usize = 0;
    while i < params.len()
        invariant
            i <= params@.len(),
            s@ == join_amp(fields_of(pair_views(params@.subrange(0, i as int)))),
        decreases params@.len() - i,
    {
        let (k, v) = params[i];
        let enc = percent_encoded(v);
        let ghost before = fields_of(pair_views(params@.subrange(0, i as int)));
        if i > 0 {
            s.append("&");
        }
        s.append(k);
        s.append("=");
        s.append(enc.as_str());
        proof {
            reveal_strlit("&");
            reveal_strlit("=");
            let after = fields_of(pair_views(params@.subrange(0, i + 1)));
            assert(after.drop_last() =~= before);
            assert(after.last() == form_field(k@, v@));
            if i == 0 {
                assert(after =~= seq![form_field(k@, v@)]);
            }
        }
        i = i + 1;
        assert(s@ =~= join_amp(fields_of(pair_views(params@.subrange(0, i as int)))));
    }
    assert(params@.subrange(0, params@.len() as int) =~= params@);
    s
}

/// The URL query string of the pairs: `key=value` fields joined with `&`,
/// leaving out the pairs whose value is empty.
pub fn query_string(params: &[(&str, &str)]) -> (r: String)
    ensures
        r@ == join_amp(fields_of(nonempty_values(pair_views(params@)))),
{
    let mut s = String::new();
    let mut first = true;
    let mut i: usize = 0;
    while i < params.len()
        invariant
            i <= params@.len(),
            s@ == join_amp(fields_of(nonempty_values(pair_views(params@.subrange(0, i as int))))),
            first == (nonempty_values(pair_views(params@.subrange(0, i as int))).len() == 0),
        decreases params@.len() - i,
    {
        let (k, v) = params[i];
        let ghost prev = pair_views(params@.subrange(0, i as int));
        let ghost next = pair_views(params@.subrange(0, i + 1));
        assert(next =~= prev.push((k@, v@)));
        proof {
            reveal(Seq::filter);
            assert(next.drop_last() =~= prev);
        }
        if !v.is_empty() {
            let enc = percent_encoded(v);
            if !first {
                s.append("&");
            }
            s.append(k);
            s.append("=");
            s.append(enc.as_str());
            first = false;
            proof {
                reveal_strlit("&");
                reveal_strlit("=");
                assert(v@.len() > 0);
                assert(nonempty_values(next) =~= nonempty_values(prev).push((k@, v@)));
                let after = fields_of(nonempty_values(next));
                let before = fields_of(nonempty_values(prev));
                assert(after.drop_last() =~= before);
                assert(after.last() == form_field(k@, v@));
                if before.len() == 0 {
                    assert(after =~= seq![form_field(k@, v@)]);
                }
            }
        } else {
            proof {
                assert(v@.len() == 0);
                assert(nonempty_values(next) =~= nonempty_values(prev));
            }
        }
        i = i + 1;
        assert(s@ =~= join_amp(fields_of(nonempty_values(pair_views(params@.subrange(0, i as int))))));
    }
    assert(params@.subrange(0, params@.len() as int) =~= params@);
    s
}

} // verus!
