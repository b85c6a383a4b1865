//! Base64 text encoding, backed by the `base64` crate.

use vstd::prelude::*;
use crate::text::{all_ascii, utf8_len};

verus! {

/// The character of the standard Base64 alphabet for the 6-bit value `v`.
pub open spec fn base64_symbol(v: nat) -> char {
    if v < 26 {
        ((65 + v) as u8) as char
    } else if v < 52 {
        ((97 + v - 26) as u8) as char
    } else if v < 62 {
        ((48 + v - 52) as u8) as char
    } else if v == 62 {
        '+'
    } else {
        '/'
    }
}

/// Standard Base64 (RFC 4648, section 4) of `b`, padded with `=`.
pub open spec fn base64_encoding(b: Seq<u8>) -> Seq<char>
    decreases b.len(),
{
    if b.len() == 0 {
        seq![]
    } else if b.len() == 1 {
        seq![base64_symbol(b[0] as nat / 4), base64_symbol((b[0] as nat % 4) * 16), '=', '=']
    } else if b.len() == 2 {
        seq![
            base64_symbol(b[0] as nat / 4),
            base64_symbol((b[0] as nat % 4) * 16 + b[1] as nat / 16),
            base64_symbol((b[1] as nat % 16) * 4),
            '=',
        ]
    } else {
        seq![
            base64_symbol(b[0] as nat / 4),
            base64_symbol((b[0] as nat % 4) * 16 + b[1] as nat / 16),
            base64_symbol((b[1] as nat % 16) * 4 + b[2] as nat / 64),
            base64_symbol(b[2] as nat % 64),
        ] + base64_encoding(b.skip(3))
    }
}

/// Length of the padded Base64 text of `n` bytes.
pub open spec fn base64_len(n: nat) -> nat {
    if n % 3 == 0 {
        n / 3 * 4
    } else {
        n / 3 * 4 + 4
    }
}

pub proof fn lemma_base64_symbol_ascii(v: nat)
    ensures
        (base64_symbol(v) as u32) < 128,
{
}

pub proof fn lemma_base64_shape(b: Seq<u8>)
    ensures
        base64_encoding(b).len() == base64_len(b.len()),
        all_ascii(base64_encoding(b)),
    decreases b.len(),
{
    reveal_with_fuel(base64_encoding, 2);
    let e = base64_encoding(b);
    if b.len() == 0 {
    } else if b.len() <= 2 {
        assert forall|i: int| 0 <= i < e.len() implies (#[trigger] e[i] as u32) < 128 by {
            if i < 3 {
                lemma_base64_symbol_ascii(b[0] as nat / 4);
                lemma_base64_symbol_ascii((b[0] as nat % 4) * 16);
                if b.len() == 2 {
                    lemma_base64_symbol_ascii((b[0] as nat % 4) * 16 + b[1] as nat / 16);
                    lemma_base64_symbol_ascii((b[1] as nat % 16) * 4);
                }
            }
        }
    } else {
        let head = seq![
            base64_symbol(b[0] as nat / 4),
            base64_symbol((b[0] as nat % 4) * 16 + b[1] as nat / 16),
            base64_symbol((b[1] as nat % 16) * 4 + b[2] as nat / 64),
            base64_symbol(b[2] as nat % 64),
        ];
        let rest = base64_encoding(b.skip(3));
        lemma_base64_shape(b.skip(3));
        assert(e == head + rest);
        assert forall|i: int| 0 <= i < e.len() implies (#[trigger] e[i] as u32) < 128 by {
            if i < 4 {
                lemma_base64_symbol_ascii(b[0] as nat / 4);
                lemma_base64_symbol_ascii((b[0] as nat % 4) * 16 + b[1] as nat / 16);
                lemma_base64_symbol_ascii((b[1] as nat % 16) * 4 + b[2] as nat / 64);
                lemma_base64_symbol_ascii(b[2] as nat % 64);
            } else {
                assert(e[i] == rest[i - 4]);
            }
        }
    }
}

/// Standard Base64 text never holds `-` or `_`, the two characters that the
/// URL-safe alphabet uses in place of `+` and `/`.
pub proof fn lemma_base64_no_url_chars(b: Seq<u8>)
    ensures
        forall|i: int|
            0 <= i < base64_encoding(b).len() ==> #[trigger] base64_encoding(b)[i] != '-'
                && base64_encoding(b)[i] != '_',
    decreases b.len(),
{
    reveal_with_fuel(base64_encoding, 2);
    let e = base64_encoding(b);
    if b.len() > 2 {
        lemma_base64_no_url_chars(b.skip(3));
        let rest = base64_encoding(b.skip(3));
        assert forall|i: int| 0 <= i < e.len() implies #[trigger] e[i] != '-' && e[i] != '_' by {
            if i >= 4 {
                assert(e[i] == rest[i - 4]);
            }
        }
    }
}

/// `base64::encode` (standard alphabet, `=` padding). The contract states the
/// whole RFC 4648 encoding; the crate panics only when the output length
/// overflows `usize`, which the precondition leaves out.
#[verifier::external_body]
pub(crate) fn encode_base64(input: &[u8]) -> (r: String)
    requires
        base64_len(input@.len()) <= usize::MAX,
    ensures
        r@ == base64_encoding(input@),
{
    base64::encode(input)
}

/// What `base64::decode` (standard alphabet) gives back for the text `text`:
/// the bytes, or `None` when the crate reports a `DecodeError`.
pub uninterp spec fn base64_decoding(text: Seq<char>) -> Option<Seq<u8>>;

/// `base64::decode` on the bytes of `text`, with the crate's `DecodeError`
/// turned into `None`. What the crate decodes is named, not restated; the
/// crate panics only when the length plus three overflows `usize`.
#[verifier::external_body]
pub(crate) fn decode_base64(text: &str) -> (r: Option<Vec<u8>>)
    requires
        utf8_len(text@) + 3 <= usize::MAX,
    ensures
        match r {
            Some(v) => base64_decoding(text@) == Some(v@),
            None => base64_decoding(text@) is None,
        },
{
    base64::decode(text).ok()
}

} // verus!
