//! Text helpers: UTF-8 facts about `String`s, decimal numbers, and cutting
//! byte strings at character boundaries.

use vstd::prelude::*;
use vstd::utf8::*;
use vstd::string::StringSliceAdditionalSpecFns;

verus! {

/// Number of bytes in the UTF-8 encoding of `s` (what `str::len` returns).
pub open spec fn utf8_len(s: Seq<char>) -> nat {
    encode_utf8(s).len()
}

/// True when the byte string `b` can be cut at byte `k` without splitting a
/// character: `k` is within bounds and is either the end or not a
/// continuation byte.
pub open spec fn cuts_at(b: Seq<u8>, k: int) -> bool {
    0 <= k <= b.len() && (k == b.len() || !is_continuation_byte(b[k]))
}

/// The ASCII digit for `d` (for `d` in `0..10`).
pub open spec fn digit_char(d: nat) -> char {
    ((48 + d) as u8) as char
}

/// Decimal representation of `n`, without leading zeros.
pub open spec fn decimal(n: nat) -> Seq<char>
    decreases n,
{
    if n < 10 {
        seq![digit_char(n)]
    } else {
        decimal(n / 10) + seq![digit_char(n % 10)]
    }
}

/// Decimal representation of `n` padded with zeros to at least three digits
/// (the `{:03}` format).
pub open spec fn pad3(n: nat) -> Seq<char> {
    if n < 10 {
        seq!['0', '0'] + decimal(n)
    } else if n < 100 {
        seq!['0'] + decimal(n)
    } else {
        decimal(n)
    }
}

/// True when every character of `s` is ASCII.
pub open spec fn all_ascii(s: Seq<char>) -> bool {
    forall|i: int| 0 <= i < s.len() ==> (#[trigger] s[i] as u32) < 128
}

/// The bytes of an ASCII character sequence.
pub open spec fn ascii_bytes(s: Seq<char>) -> Seq<u8> {
    Seq::new(s.len(), |i: int| (s[i] as u32) as u8)
}

pub proof fn lemma_encode_utf8_concat(a: Seq<char>, b: Seq<char>)
    ensures
        encode_utf8(a + b) == encode_utf8(a) + encode_utf8(b),
    decreases a.len(),
{
    if a.len() == 0 {
        assert(a + b =~= b);
        assert(encode_utf8(a) =~= Seq::<u8>::empty());
        assert(encode_utf8(a) + encode_utf8(b) =~= encode_utf8(b));
    } else {
        assert((a + b).drop_first() =~= a.drop_first() + b);
        assert((a + b)[0] == a[0]);
        lemma_encode_utf8_concat(a.drop_first(), b);
        assert(encode_utf8(a + b) =~= encode_scalar(a[0] as u32) + (encode_utf8(a.drop_first())
            + encode_utf8(b)));
    }
}

pub proof fn lemma_encode_ascii(s: Seq<char>)
    requires
        all_ascii(s),
    ensures
        encode_utf8(s) == ascii_bytes(s),
        utf8_len(s) == s.len(),
    decreases s.len(),
{
    if s.len() == 0 {
        assert(encode_utf8(s) =~= ascii_bytes(s));
    } else {
        let c = s[0] as u32;
        assert(c < 128);
        assert(has_width_1_encoding(c));
        assert(c as u8 == leading_byte_width_1(c)) by (bit_vector)
            requires
                c < 128,
        ;
        let rest = s.drop_first();
        assert forall|i: int| 0 <= i < rest.len() implies (#[trigger] rest[i] as u32) < 128 by {
            assert(rest[i] == s[i + 1]);
        }
        lemma_encode_ascii(rest);
        assert(encode_scalar(c) == seq![c as u8]);
        assert(encode_utf8(s) == encode_scalar(c) + encode_utf8(rest));
        assert forall|i: int| 0 <= i < s.len() implies #[trigger] encode_utf8(s)[i] == ascii_bytes(s)[i] by {
            if i > 0 {
                assert(rest[i - 1] == s[i]);
            }
        }
        assert(encode_utf8(s) =~= ascii_bytes(s));
    }
}

/// A valid UTF-8 byte string never starts with a continuation byte.
pub proof fn lemma_valid_first_not_continuation(q: Seq<u8>)
    requires
        valid_utf8(q),
        q.len() > 0,
    ensures
        !is_continuation_byte(q[0]),
{
    assert(valid_first_scalar(q));
}

/// Cutting right after a prefix, in front of valid UTF-8, never splits a character.
pub proof fn lemma_cut_between(p: Seq<u8>, q: Seq<u8>)
    requires
        valid_utf8(q),
    ensures
        cuts_at(p + q, p.len() as int),
{
    if q.len() > 0 {
        lemma_valid_first_not_continuation(q);
        assert((p + q)[p.len() as int] == q[0]);
    }
}

/// On valid UTF-8, `cuts_at` is exactly `is_char_boundary`.
pub proof fn lemma_cuts_at_boundary(b: Seq<u8>, k: int)
    requires
        valid_utf8(b),
        cuts_at(b, k),
    ensures
        is_char_boundary(b, k),
{
    is_char_boundary_start_end_of_seq(b);
    if 0 < k < b.len() {
        is_char_boundary_iff_not_is_continuation_byte(b, k);
    }
}

/// `str::split_at` may be called at byte `k` of `s` when `cuts_at` holds there.
pub proof fn lemma_str_cut(s: &str, k: int)
    requires
        cuts_at(s.spec_bytes(), k),
    ensures
        is_char_boundary(s.spec_bytes(), k),
{
    encode_utf8_valid_utf8(s@);
    lemma_cuts_at_boundary(s.spec_bytes(), k);
}

/// True for the bytes of the ASCII digits `0`..`9`.
pub open spec fn is_digit_byte(c: u8) -> bool {
    48 <= c <= 57
}

/// `usize::from_str` on a three-byte text: an optional `+` followed by
/// decimal digits; `None` where the standard library reports an error.
pub open spec fn parse_decimal3(p: Seq<u8>) -> Option<nat> {
    if p.len() != 3 {
        None
    } else if p[0] == 43 && is_digit_byte(p[1]) && is_digit_byte(p[2]) {
        Some(((p[1] - 48) * 10 + (p[2] - 48)) as nat)
    } else if is_digit_byte(p[0]) && is_digit_byte(p[1]) && is_digit_byte(p[2]) {
        Some(((p[0] - 48) * 100 + (p[1] - 48) * 10 + (p[2] - 48)) as nat)
    } else {
        None
    }
}

/// Parses a three-byte decimal number the way `usize::from_str` does.
pub fn read_decimal3(p: &[u8]) -> (r: Option<usize>)
    ensures
        match parse_decimal3(p@) {
            Some(n) => r == Some(n as usize),
            None => r is None,
        },
{
    if p.len() != 3 {
        return None;
    }
    let (a, b, c) = (p[0], p[1], p[2]);
    let digits_bc = 48 <= b && b <= 57 && 48 <= c && c <= 57;
    if a == 43 && digits_bc {
        Some(((b - 48) as usize) * 10 + ((c - 48) as usize))
    } else if 48 <= a && a <= 57 && digits_bc {
        Some(((a - 48) as usize) * 100 + ((b - 48) as usize) * 10 + ((c - 48) as usize))
    } else {
        None
    }
}

pub proof fn lemma_digit_char(d: nat)
    requires
        d < 10,
    ensures
        (digit_char(d) as u32) < 128,
        ((digit_char(d) as u32) as u8) == 48 + d,
{
    let x: u8 = (48 + d) as u8;
    assert(x == 48 + d);
    assert((x as char) as u32 == x as u32);
}

/// A number below 1000, written with `pad3`, reads back with `parse_decimal3`.
pub proof fn lemma_pad3_reads_back(n: nat)
    requires
        n < 1000,
    ensures
        pad3(n).len() == 3,
        all_ascii(pad3(n)),
        parse_decimal3(ascii_bytes(pad3(n))) == Some(n),
{
    reveal_with_fuel(decimal, 3);
    let p = pad3(n);
    lemma_digit_char(n % 10);
    lemma_digit_char((n / 10) % 10);
    lemma_digit_char(n / 100);
    if n < 10 {
        assert(p =~= seq!['0', '0', digit_char(n)]);
    } else if n < 100 {
        assert(decimal(n) =~= seq![digit_char(n / 10), digit_char(n % 10)]);
        assert(p =~= seq!['0', digit_char(n / 10), digit_char(n % 10)]);
    } else {
        assert(decimal(n / 10) =~= seq![digit_char(n / 100), digit_char((n / 10) % 10)]);
        assert(p =~= seq![digit_char(n / 100), digit_char((n / 10) % 10), digit_char(n % 10)]);
    }
    let b = ascii_bytes(p);
    assert(b.len() == 3);
}

/// Length in bytes of `s` (what `str::len` returns).
pub fn byte_len(s: &str) -> (r: usize)
    ensures
        r == utf8_len(s@),
{
    let b = s.as_bytes();
    b.len()
}

/// The ASCII digit string for `d < 10`.
pub fn digit_str(d: usize) -> (r: &'static str)
    requires
        d < 10,
    ensures
        r@ == seq![digit_char(d as nat)],
{
    proof {
        reveal_strlit("0");
        reveal_strlit("1");
        reveal_strlit("2");
        reveal_strlit("3");
        reveal_strlit("4");
        reveal_strlit("5");
        reveal_strlit("6");
        reveal_strlit("7");
        reveal_strlit("8");
        reveal_strlit("9");
    }
    let r = if d == 0 {
        "0"
    } else if d == 1 {
        "1"
    } else if d == 2 {
        "2"
    } else if d == 3 {
        "3"
    } else if d == 4 {
        "4"
    } else if d == 5 {
        "5"
    } else if d == 6 {
        "6"
    } else if d == 7 {
        "7"
    } else if d == 8 {
        "8"
    } else {
        "9"
    };
    assert(r@ =~= seq![digit_char(d as nat)]);
    r
}

/// `10` to the power `k`.
pub open spec fn pow10(k: nat) -> nat
    decreases k,
{
    if k == 0 {
        1
    } else {
        10 * pow10((k - 1) as nat)
    }
}

/// Decimal text is ASCII, and has at most `k` digits below `10^k`.
pub proof fn lemma_decimal_shape(n: nat, k: nat)
    requires
        n < pow10(k),
        k >= 1,
    ensures
        all_ascii(decimal(n)),
        decimal(n).len() <= k,
    decreases n,
{
    lemma_digit_char(n % 10);
    if n >= 10 {
        assert(pow10(k) == 10 * pow10((k - 1) as nat));
        assert(n / 10 < pow10((k - 1) as nat));
        if k == 1 {
            assert(false);
        }
        lemma_decimal_shape(n / 10, (k - 1) as nat);
        let d = decimal(n);
        let p = decimal(n / 10);
        assert forall|i: int| 0 <= i < d.len() implies (#[trigger] d[i] as u32) < 128 by {
            if i < p.len() {
                assert(d[i] == p[i]);
            }
        }
    } else {
        lemma_digit_char(n);
    }
}

/// Appends the decimal representation of `n` to `s` (the `{}` format of an
/// unsigned integer).
pub fn push_decimal(s: &mut String, n: u64)
    ensures
        final(s)@ == old(s)@ + decimal(n as nat),
    decreases n,
{
    if n < 10 {
        s.append(digit_str(n as usize));
    } else {
        push_decimal(s, n / 10);
        s.append(digit_str((n % 10) as usize));
        assert(final(s)@ =~= old(s)@ + decimal(n as nat));
    }
}

/// Appends `n` in decimal, zero-padded to at least three digits (the `{:03}` format).
pub fn push_pad3(s: &mut String, n: usize)
    ensures
        final(s)@ == old(s)@ + pad3(n as nat),
{
    proof {
        reveal_strlit("00");
        reveal_strlit("0");
    }
    if n < 10 {
        s.append("00");
    } else if n < 100 {
        s.append("0");
    }
    push_decimal(s, n as u64);
    assert(final(s)@ =~= old(s)@ + pad3(n as nat));
}

/// `s` without one trailing `\n`, and then without one trailing `\r`.
pub open spec fn without_line_ending(s: Seq<char>) -> Seq<char> {
    let s1 = if s.len() > 0 && s.last() == '\n' {
        s.drop_last()
    } else {
        s
    };
    if s1.len() > 0 && s1.last() == '\r' {
        s1.drop_last()
    } else {
        s1
    }
}

/// Removes the line ending of a line read from the terminal (see `without_line_ending`).
pub fn strip_line_ending(s: String) -> (r: String)
    ensures
        r@ == without_line_ending(s@),
{
    let t = s.as_str();
    let mut n = t.unicode_len();
    if n > 0 && t.get_char(n - 1) == '\n' {
        n = n - 1;
    }
    if n > 0 && t.get_char(n - 1) == '\r' {
        n = n - 1;
    }
    let r = t.substring_char(0, n).to_owned();
    assert(r@ =~= without_line_ending(s@));
    r
}

/// Whether two byte strings are equal.
pub fn bytes_eq(a: &[u8], b: &[u8]) -> (r: bool)
    ensures
        r == (a@ == b@),
{
    if a.len() != b.len() {
        return false;
    }
    let mut i: usize = 0;
    while i < a.len()
        invariant
            a@.len() == b@.len(),
            i <= a@.len(),
            forall|j: int| 0 <= j < i ==> a@[j] == b@[j],
        decreases a@.len() - i,
    {
        if a[i] != b[i] {
            return false;
        }
        i = i + 1;
    }
    assert(a@ =~= b@);
    true
}

/// Whether byte `k` of `b` is a place where `b` can be cut (see `cuts_at`).
pub fn check_cut(b: &[u8], k: usize) -> (r: bool)
    ensures
        r == cuts_at(b@, k as int),
{
    if k > b.len() {
        false
    } else if k == b.len() {
        true
    } else {
        !(0x80 <= b[k] && b[k] <= 0xbf)
    }
}

} // verus!
