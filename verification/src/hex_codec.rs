//! Lower-case hexadecimal encoding and decoding of byte strings, as raw
//! transactions and signatures travel to and from the node.

use vstd::prelude::*;
use vstd::string::StringExecFns;

verus! {

/// The lower-case hex character for one value below 16.
pub open spec fn spec_hex_digit(d: int) -> char {
    if d == 0 {
        '0'
    } else if d == 1 {
        '1'
    } else if d == 2 {
        '2'
    } else if d == 3 {
        '3'
    } else if d == 4 {
        '4'
    } else if d == 5 {
        '5'
    } else if d == 6 {
        '6'
    } else if d == 7 {
        '7'
    } else if d == 8 {
        '8'
    } else if d == 9 {
        '9'
    } else if d == 10 {
        'a'
    } else if d == 11 {
        'b'
    } else if d == 12 {
        'c'
    } else if d == 13 {
        'd'
    } else if d == 14 {
        'e'
    } else {
        'f'
    }
}

/// The lower-case hex rendering of a byte string: two characters per byte,
/// high digit first.
pub open spec fn spec_hex(bytes: Seq<u8>) -> Seq<char> {
    Seq::new(
        bytes.len() * 2,
        |i: int|
            if i % 2 == 0 {
                spec_hex_digit(bytes[i / 2] as int / 16)
            } else {
                spec_hex_digit(bytes[i / 2] as int % 16)
            },
    )
}

/// One hex digit as a string slice.
fn hex_digit_str(d: u8) -> (r: &'static str)
    requires
        d < 16,
    ensures
        r@ == seq![spec_hex_digit(d as int)],
{
    proof {
        reveal_strlit("0");
        reveal_strlit("1");
        reveal_strlit("2");
        reveal_strlit("3");
        reveal_strlit("4");
        reveal_strlit("5");
        reveal_strlit("6");
        reveal_strlit("7");
        reveal_strlit("8");
        reveal_strlit("9");
        reveal_strlit("a");
        reveal_strlit("b");
        reveal_strlit("c");
        reveal_strlit("d");
        reveal_strlit("e");
        reveal_strlit("f");
    }
    let r = if d == 0 {
        "0"
    } else if d == 1 {
        "1"
    } else if d == 2 {
        "2"
    } else if d == 3 {
        "3"
    } else if d == 4 {
        "4"
    } else if d == 5 {
        "5"
    } else if d == 6 {
        "6"
    } else if d == 7 {
        "7"
    } else if d == 8 {
        "8"
    } else if d == 9 {
        "9"
    } else if d == 10 {
        "a"
    } else if d == 11 {
        "b"
    } else if d == 12 {
        "c"
    } else if d == 13 {
        "d"
    } else if d == 14 {
        "e"
    } else {
        "f"
    };
    proof {
        assert(r@ =~= seq![spec_hex_digit(d as int)]);
    }
    r
}

/// Encodes bytes as lower-case hexadecimal.
#[verifier::loop_isolation(false)]
pub fn encode_hex(bytes: &[u8]) -> (r: String)
    ensures
        r@ == spec_hex(bytes@),
{
    let mut s = String::new();
    let mut i: usize = 0;
    while i < bytes.len()
        invariant
            0 <= i <= bytes@.len(),
            s@ == spec_hex(bytes@.take(i as int)),
        decreases bytes@.len() - i,
    {
        let b = bytes[i];
        s.append(hex_digit_str(b / 16));
        s.append(hex_digit_str(b % 16));
        proof {
            assert(s@ =~= spec_hex(bytes@.take(i + 1 as int)));
        }
        i += 1;
    }
    proof {
        assert(bytes@.take(bytes@.len() as int) =~= bytes@);
    }
    s
}

/// The value of one ASCII hex digit; 16 for a byte that is none.
pub open spec fn spec_hex_val(b: u8) -> int {
    if 48 <= b <= 57 {
        b - 48
    } else if 97 <= b <= 102 {
        b - 87
    } else if 65 <= b <= 70 {
        b - 55
    } else {
        16
    }
}

/// Whether an ASCII byte string is well-formed hex: even length, digits only.
pub open spec fn spec_is_hex(s: Seq<u8>) -> bool {
    s.len() % 2 == 0 && forall|i: int| 0 <= i < s.len() ==> spec_hex_val(#[trigger] s[i]) < 16
}

/// The bytes a well-formed ASCII hex string denotes.
pub open spec fn spec_unhex(s: Seq<u8>) -> Seq<u8> {
    Seq::new(
        s.len() / 2,
        |i: int| (spec_hex_val(s[2 * i]) * 16 + spec_hex_val(s[2 * i + 1])) as u8,
    )
}

/// The value of one ASCII hex digit; 16 for a byte that is none.
fn hex_val(b: u8) -> (r: u8)
    ensures
        r as int == spec_hex_val(b),
{
    if 48 <= b && b <= 57 {
        b - 48
    } else if 97 <= b && b <= 102 {
        b - 87
    } else if 65 <= b && b <= 70 {
        b - 55
    } else {
        16
    }
}

/// Decodes an ASCII hex string; fails exactly on an odd length or a byte
/// that is no hex digit.
#[verifier::loop_isolation(false)]
pub fn decode_hex(s: &[u8]) -> (r: Option<Vec<u8>>)
    ensures
        r is Some <==> spec_is_hex(s@),
        r is Some ==> r.unwrap()@ == spec_unhex(s@),
{
    if s.len() % 2 != 0 {
        return None;
    }
    let mut out: Vec<u8> = Vec::new();
    let mut i: usize = 0;
    while i < s.len()
        invariant
            s@.len() % 2 == 0,
            0 <= i <= s@.len(),
            i % 2 == 0,
            out@.len() == i / 2,
            forall|k: int| 0 <= k < i ==> spec_hex_val(#[trigger] s@[k]) < 16,
            forall|k: int|
                0 <= k < i / 2 ==> out@[k] == (spec_hex_val(s@[2 * k]) * 16 + spec_hex_val(
                    s@[2 * k + 1],
                )) as u8,
        decreases s@.len() - i,
    {
        let hi = hex_val(s[i]);
        let lo = hex_val(s[i + 1]);
        if hi >= 16 || lo >= 16 {
            return None;
        }
        out.push(hi * 16 + lo);
        i += 2;
    }
    proof {
        assert(out@ =~= spec_unhex(s@));
    }
    Some(out)
}

} // verus!
