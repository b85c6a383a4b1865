//! Small byte-level helpers: big-endian integers and hexadecimal text.

use vstd::prelude::*;

verus! {

/// The number whose big-endian encoding is the four bytes `b[0..4]`.
pub open spec fn be_u32_value(b: Seq<u8>) -> int
    recommends
        b.len() >= 4,
{
    b[0] as int * 0x100_0000 + b[1] as int * 0x1_0000 + b[2] as int * 0x100 + b[3] as int
}

/// Interprets four bytes as a big-endian `u32`.
pub fn as_u32_be(array: &[u8; 4]) -> (r: u32)
    ensures
        r == be_u32_value(array@),
{
    let a0 = array[0];
    let a1 = array[1];
    let a2 = array[2];
    let a3 = array[3];
    assert(((a0 as u32) << 24u32) == a0 as int * 0x100_0000) by (bit_vector);
    assert(((a1 as u32) << 16u32) == a1 as int * 0x1_0000) by (bit_vector);
    assert(((a2 as u32) << 8u32) == a2 as int * 0x100) by (bit_vector);
    assert(((a3 as u32) << 0u32) == a3 as int) by (bit_vector);
    ((a0 as u32) << 24u32) + ((a1 as u32) << 16u32) + ((a2 as u32) << 8u32) + ((a3 as u32) << 0u32)
}

/// The first four bytes of a slice, or an error when it holds fewer than four.
pub fn pop4(four: &[u8]) -> (r: Result<[u8; 4], &'static str>)
    ensures
        four@.len() < 4 <==> r is Err,
        r matches Ok(a) ==> a@ == four@.subrange(0, 4),
        r matches Err(m) ==> m@ == "pop4: slice length less than 4"@,
{
    if four.len() < 4 {
        Err("pop4: slice length less than 4")
    } else {
        let a = [four[0], four[1], four[2], four[3]];
        assert(a@ =~= four@.subrange(0, 4));
        Ok(a)
    }
}

/// Reads the first four bytes of a slice as a big-endian `u32`.
pub fn read_u32_be(slice: &[u8]) -> (r: u32)
    requires
        slice@.len() >= 4,
    ensures
        r == be_u32_value(slice@),
{
    match pop4(slice) {
        Ok(a) => as_u32_be(&a),
        Err(_) => {
            assert(false);
            0
        },
    }
}

/// The lowercase hexadecimal digit for `d` (for `d` in `0..16`).
pub open spec fn hex_digit(d: nat) -> char {
    if d < 10 {
        ((48 + d) as u8) as char
    } else {
        ((87 + d) as u8) as char
    }
}

/// Lowercase hexadecimal text of `b`: two digits per byte (the `{:02x}` format).
pub open spec fn hex_text(b: Seq<u8>) -> Seq<char>
    decreases b.len(),
{
    if b.len() == 0 {
        seq![]
    } else {
        hex_text(b.drop_last()) + seq![
            hex_digit(b.last() as nat / 16),
            hex_digit(b.last() as nat % 16),
        ]
    }
}

/// The hexadecimal digit string for `d < 16`.
fn hex_digit_str(d: u8) -> (r: &'static str)
    requires
        d < 16,
    ensures
        r@ == seq![hex_digit(d as nat)],
{
    proof {
        reveal_strlit("0");
        reveal_strlit("1");
        reveal_strlit("2");
        reveal_strlit("3");
        reveal_strlit("4");
        reveal_strlit("5");
        reveal_strlit("6");
        reveal_strlit("7");
        reveal_strlit("8");
        reveal_strlit("9");
        reveal_strlit("a");
        reveal_strlit("b");
        reveal_strlit("c");
        reveal_strlit("d");
        reveal_strlit("e");
        reveal_strlit("f");
    }
    let r = match d {
        0 => "0",
        1 => "1",
        2 => "2",
        3 => "3",
        4 => "4",
        5 => "5",
        6 => "6",
        7 => "7",
        8 => "8",
        9 => "9",
        10 => "a",
        11 => "b",
        12 => "c",
        13 => "d",
        14 => "e",
        _ => "f",
    };
    assert(r@ =~= seq![hex_digit(d as nat)]);
    r
}

/// Lowercase hexadecimal text of `bytes`, two digits per byte.
pub fn hex(bytes: &[u8]) -> (r: String)
    ensures
        r@ == hex_text(bytes@),
{
    let mut s = String::new();
    let mut i: usize = 0;
    while i < bytes.len()
        invariant
            i <= bytes@.len(),
            s@ == hex_text(bytes@.subrange(0, i as int)),
        decreases bytes@.len() - i,
    {
        let byte = bytes[i];
        s.append(hex_digit_str(byte / 16));
        s.append(hex_digit_str(byte % 16));
        let ghost prefix = bytes@.subrange(0, i + 1);
        assert(prefix.drop_last() =~= bytes@.subrange(0, i as int));
        assert(prefix.last() == byte);
        i = i + 1;
        assert(s@ =~= hex_text(bytes@.subrange(0, i as int)));
    }
    assert(bytes@.subrange(0, bytes@.len() as int) =~= bytes@);
    s
}

pub proof fn lemma_hex_text_shape(b: Seq<u8>)
    ensures
        hex_text(b).len() == 2 * b.len(),
        forall|i: int| 0 <= i < hex_text(b).len() ==> (#[trigger] hex_text(b)[i] as u32) < 128,
    decreases b.len(),
{
    if b.len() > 0 {
        lemma_hex_text_shape(b.drop_last());
        let h = hex_text(b);
        let p = hex_text(b.drop_last());
        assert forall|i: int| 0 <= i < h.len() implies (#[trigger] h[i] as u32) < 128 by {
            if i < p.len() {
                assert(h[i] == p[i]);
            } else {
                let x: u8 = (b.last() / 16) as u8;
                let y: u8 = (b.last() % 16) as u8;
                let cx: u8 = if x < 10 { (48 + x) as u8 } else { (87 + x) as u8 };
                let cy: u8 = if y < 10 { (48 + y) as u8 } else { (87 + y) as u8 };
                assert((cx as char) as u32 == cx as u32);
                assert((cy as char) as u32 == cy as u32);
            }
        }
    }
}

} // verus!
