use vstd::prelude::*;

use crate::text::chars_to_string;

verus! {

/// Numeric value of a hex digit char; 255 when the char is not a hex digit.
pub open spec fn hex_char_val(c: char) -> u8 {
    if 48 <= c as u32 && c as u32 <= 57 {
        (c as u32 - 48) as u8
    } else if 97 <= c as u32 && c as u32 <= 102 {
        (c as u32 - 87) as u8
    } else if 65 <= c as u32 && c as u32 <= 70 {
        (c as u32 - 55) as u8
    } else {
        255
    }
}

pub open spec fn is_hex_char(c: char) -> bool {
    hex_char_val(c) < 16
}

/// ASCII code of the lower-case hex digit for a nibble value.
pub open spec fn lower_hex_digit(n: u8) -> u8
    recommends
        n < 16,
{
    if n < 10 {
        (48 + n) as u8
    } else {
        (87 + n) as u8
    }
}

/// The `i`-th nibble of a byte sequence, high nibble first within each byte.
pub open spec fn nibble_at(b: Seq<u8>, i: int) -> u8 {
    if i % 2 == 0 {
        b[i / 2] / 16
    } else {
        b[i / 2] % 16
    }
}

/// Lower-case hex chars of a byte sequence, two per byte.
pub open spec fn lower_hex_chars(b: Seq<u8>) -> Seq<char> {
    Seq::new(b.len() * 2, |i: int| lower_hex_digit(nibble_at(b, i)) as char)
}

/// Hex digit value of a char, or `None` when it is not a hex digit.
pub fn hex_char_value(c: char) -> (r: Option<u8>)
    ensures
        match r {
            Some(v) => is_hex_char(c) && v == hex_char_val(c),
            None => !is_hex_char(c),
        },
{
    let u = c as u32;
    if 48 <= u && u <= 57 {
        Some((u - 48) as u8)
    } else if 97 <= u && u <= 102 {
        Some((u - 87) as u8)
    } else if 65 <= u && u <= 70 {
        Some((u - 55) as u8)
    } else {
        None
    }
}

/// Lower-case hex chars of a byte slice.
pub fn bytes_to_lower_hex(b: &[u8]) -> (r: Vec<char>)
    ensures
        r@ == lower_hex_chars(b@),
{
    let mut out: Vec<char> = Vec::new();
    let mut i: usize = 0;
    while i < b.len()
        invariant
            i <= b@.len(),
            out@.len() == 2 * i,
            forall|j: int| 0 <= j < out@.len() ==> out@[j] == lower_hex_chars(b@)[j],
        decreases b@.len() - i,
    {
        let hi: u8 = b[i] / 16;
        let lo: u8 = b[i] % 16;
        let hc: u8 = if hi < 10 {
            48 + hi
        } else {
            87 + hi
        };
        let lc: u8 = if lo < 10 {
            48 + lo
        } else {
            87 + lo
        };
        out.push(hc as char);
        out.push(lc as char);
        proof {
            assert(nibble_at(b@, 2 * i as int) == b@[i as int] / 16);
            assert(nibble_at(b@, 2 * i as int + 1) == b@[i as int] % 16);
        }
        i = i + 1;
    }
    proof {
        assert(out@ =~= lower_hex_chars(b@));
    }
    out
}

/// `0x`-prefixed lower-case full-width hex string of a byte slice.
pub fn to_0x_lower_hex_string(b: &[u8]) -> (r: String)
    ensures
        r@ == seq!['0', 'x'] + lower_hex_chars(b@),
{
    let mut chars: Vec<char> = Vec::new();
    chars.push('0');
    chars.push('x');
    let hex = bytes_to_lower_hex(b);
    let mut i: usize = 0;
    while i < hex.len()
        invariant
            i <= hex@.len(),
            hex@ == lower_hex_chars(b@),
            chars@ == seq!['0', 'x'] + hex@.take(i as int),
        decreases hex@.len() - i,
    {
        chars.push(hex[i]);
        proof {
            assert(hex@.take(i + 1 as int) =~= hex@.take(i as int).push(hex@[i as int]));
        }
        i = i + 1;
    }
    proof {
        assert(hex@.take(hex@.len() as int) =~= hex@);
    }
    chars_to_string(&chars)
}

} // verus!
