//! Hexadecimal rendering of in-memory byte representations.
//!
//! A companion to the dispatch layer's byte codec: it renders a byte
//! sequence the way the layer stores it, least significant byte first,
//! two hex digits per byte.  Only values with a well-defined portable
//! byte representation are rendered here; a float's bits or a pointer's
//! address have none.

use vstd::prelude::*;
use vstd::string::StringExecFns;

use crate::codec::bytes_of_words;

verus! {

/// The sixteen hexadecimal digit characters.
pub open spec fn hex_digits() -> Seq<char> {
    seq!['0', '1', '2', '3', '4', '5', '6', '7', '8', '9', 'a', 'b', 'c', 'd', 'e', 'f']
}

/// The rendering of a byte sequence: a space and two hex digits for each
/// byte, in sequence order.
pub open spec fn hex_line(bs: Seq<u8>) -> Seq<char> {
    Seq::new(
        3 * bs.len(),
        |i: int|
            if i % 3 == 0 {
                ' '
            } else if i % 3 == 1 {
                hex_digits()[bs[i / 3] as int / 16]
            } else {
                hex_digits()[bs[i / 3] as int % 16]
            },
    )
}

/// The one-character string of a hexadecimal digit.
fn hex_digit_str(d: u8) -> (r: &'static str)
    requires
        d < 16,
    ensures
        r@.len() == 1,
        r@[0] == hex_digits()[d as int],
{
    proof {
        reveal_strlit("0");
        reveal_strlit("1");
        reveal_strlit("2");
        reveal_strlit("3");
        reveal_strlit("4");
        reveal_strlit("5");
        reveal_strlit("6");
        reveal_strlit("7");
        reveal_strlit("8");
        reveal_strlit("9");
        reveal_strlit("a");
        reveal_strlit("b");
        reveal_strlit("c");
        reveal_strlit("d");
        reveal_strlit("e");
        reveal_strlit("f");
    }
    match d {
        0 => "0",
        1 => "1",
        2 => "2",
        3 => "3",
        4 => "4",
        5 => "5",
        6 => "6",
        7 => "7",
        8 => "8",
        9 => "9",
        10 => "a",
        11 => "b",
        12 => "c",
        13 => "d",
        14 => "e",
        _ => {
            proof {
                assert(d == 15);
            }
            "f"
        },
    }
}

/// Renders each byte as a space and two hex digits.
pub fn show_bytes(bytes: &Vec<u8>) -> (r: String)
    ensures
        r@ == hex_line(bytes@),
{
    let mut out = String::new();
    let len = bytes.len();
    let mut i: usize = 0;
    while i < len
        invariant
            i <= len,
            len == bytes@.len(),
            out@ =~= hex_line(bytes@).take(3 * i as int),
        decreases len - i,
    {
        let b = bytes[i];
        let high = hex_digit_str(b / 16);
        let low = hex_digit_str(b % 16);
        out.append(" ");
        out.append(high);
        out.append(low);
        proof {
            reveal_strlit(" ");
            assert((3 * i) % 3 == 0 && (3 * i) / 3 == i) by (nonlinear_arith)
                requires
                    i >= 0,
            ;
            assert((3 * i + 1) % 3 == 1 && (3 * i + 1) / 3 == i) by (nonlinear_arith)
                requires
                    i >= 0,
            ;
            assert((3 * i + 2) % 3 == 2 && (3 * i + 2) / 3 == i) by (nonlinear_arith)
                requires
                    i >= 0,
            ;
            assert(hex_line(bytes@)[3 * i] == ' ');
            assert(hex_line(bytes@)[3 * i + 1] == hex_digits()[b as int / 16]);
            assert(hex_line(bytes@)[3 * i + 2] == hex_digits()[b as int % 16]);
            assert(out@ =~= hex_line(bytes@).take(3 * (i + 1)));
        }
        i = i + 1;
    }
    proof {
        assert(hex_line(bytes@).take(3 * len as int) =~= hex_line(bytes@));
    }
    out
}

/// The 32-bit word standing for an integer's two's-complement pattern.
pub open spec fn word_of_int(x: i32) -> u32 {
    ((x as int) % 0x1_0000_0000) as u32
}

/// Renders the little-endian byte representation of an integer.
pub fn show_int(x: i32) -> (r: String)
    ensures
        r@ == hex_line(bytes_of_words(seq![word_of_int(x)])),
{
    let w: u32 = if x >= 0 {
        x as u32
    } else {
        ((x as i64) + 0x1_0000_0000i64) as u32
    };
    proof {
        assert(w == word_of_int(x));
    }
    let mut ws: Vec<u32> = Vec::new();
    ws.push(w);
    proof {
        assert(ws@ =~= seq![word_of_int(x)]);
    }
    let bytes = crate::codec::encode_words(&ws);
    show_bytes(&bytes)
}

/// Renders the byte representation of an integer value, as the
/// demonstration does for each value it walks through.
pub fn test_show_bytes(val: i32) -> (r: String)
    ensures
        r@ == hex_line(bytes_of_words(seq![word_of_int(val)])),
{
    let ival = val;
    show_int(ival)
}

} // verus!
