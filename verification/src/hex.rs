//! Parsing of hexadecimal configuration strings (contract addresses and
//! private keys), over their UTF-8 bytes.

use vstd::prelude::*;

verus! {

/// Whether the byte is an ASCII hexadecimal digit.
pub open spec fn is_hex_digit(b: u8) -> bool {
    (48 <= b <= 57) || (97 <= b <= 102) || (65 <= b <= 70)
}

/// The numeric value of an ASCII hexadecimal digit.
pub open spec fn hex_val(b: u8) -> nat {
    if 48 <= b <= 57 {
        (b - 48) as nat
    } else if 97 <= b <= 102 {
        (b - 87) as nat
    } else {
        (b - 55) as nat
    }
}

pub open spec fn all_hex_digits(s: Seq<u8>) -> bool {
    forall|i: int| 0 <= i < s.len() ==> is_hex_digit(s[i])
}

/// The text with a leading `0x`, if any, removed.
pub open spec fn strip_0x(s: Seq<u8>) -> Seq<u8> {
    if s.len() >= 2 && s[0] == 48 && s[1] == 120 {
        s.skip(2)
    } else {
        s
    }
}

/// The bytes denoted by an even-length run of hexadecimal digits.
pub open spec fn hex_bytes(s: Seq<u8>) -> Seq<u8> {
    Seq::new(s.len() / 2, |i: int| (hex_val(s[2 * i]) * 16 + hex_val(s[2 * i + 1])) as u8)
}

/// Whether the text is `n` bytes in hexadecimal: an optional `0x`,
/// then exactly `2 * n` hexadecimal digits.
pub open spec fn valid_hex_fixed(s: Seq<u8>, n: nat) -> bool {
    strip_0x(s).len() == 2 * n && all_hex_digits(strip_0x(s))
}

/// The numeric value of an ASCII hexadecimal digit, or nothing.
fn hex_digit_value(c: u8) -> (r: Option<u8>)
    ensures
        (r is Some) == is_hex_digit(c),
        r matches Some(v) ==> v as nat == hex_val(c) && v < 16,
{
    if 48 <= c && c <= 57 {
        Some(c - 48)
    } else if 97 <= c && c <= 102 {
        Some(c - 87)
    } else if 65 <= c && c <= 70 {
        Some(c - 55)
    } else {
        None
    }
}

/// Parses a fixed-width hexadecimal text into its `n` bytes.
pub(crate) fn parse_hex_fixed(b: &Vec<u8>, n: usize) -> (r: Option<Vec<u8>>)
    requires
        n <= 1000,
    ensures
        (r is Some) == valid_hex_fixed(b@, n as nat),
        r matches Some(v) ==> v@ == hex_bytes(strip_0x(b@)) && v@.len() == n,
{
    let blen: usize = b.len();
    let start: usize = if blen >= 2 && b[0] == 48 && b[1] == 120 {
        2
    } else {
        0
    };
    let ghost t = strip_0x(b@);
    proof {
        assert(t =~= b@.skip(start as int));
    }
    if blen - start != 2 * n {
        return None;
    }
    let mut out: Vec<u8> = Vec::new();
    let mut i: usize = 0;
    while i < n
        invariant
            i <= n,
            n <= 1000,
            t == strip_0x(b@),
            t =~= b@.skip(start as int),
            start + 2 * n == b@.len() <= usize::MAX,
            start <= 2,
            out@.len() == i,
            forall|m: int| 0 <= m < 2 * i ==> is_hex_digit(t[m]),
            forall|m: int|
                0 <= m < i ==> out@[m] as nat == hex_val(t[2 * m]) * 16 + hex_val(t[2 * m + 1]),
        decreases n - i,
    {
        let c1 = b[start + 2 * i];
        let c2 = b[start + 2 * i + 1];
        proof {
            assert(t[2 * i as int] == b@[start + 2 * i]);
            assert(t[2 * i as int + 1] == b@[start + 2 * i + 1]);
        }
        let v1 = match hex_digit_value(c1) {
            Some(v) => v,
            None => {
                return None;
            },
        };
        let v2 = match hex_digit_value(c2) {
            Some(v) => v,
            None => {
                return None;
            },
        };
        out.push(v1 * 16 + v2);
        i = i + 1;
    }
    proof {
        assert(out@ =~= hex_bytes(t));
    }
    Some(out)
}

} // verus!
