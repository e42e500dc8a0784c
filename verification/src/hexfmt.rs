//! Hexadecimal rendering with the exact widths and cases the `symchk`
//! manifest and filestore layouts demand: fixed-width fields for the GUID
//! and timestamp, and an unpadded lowercase field for age and image size.

use vstd::prelude::*;

use crate::strutil::push_char;

verus! {

/// The hex digit character for `v`, uppercase letters when `upper`.
pub open spec fn spec_hex_digit(v: int, upper: bool) -> char {
    if v == 0 {
        '0'
    } else if v == 1 {
        '1'
    } else if v == 2 {
        '2'
    } else if v == 3 {
        '3'
    } else if v == 4 {
        '4'
    } else if v == 5 {
        '5'
    } else if v == 6 {
        '6'
    } else if v == 7 {
        '7'
    } else if v == 8 {
        '8'
    } else if v == 9 {
        '9'
    } else if v == 10 {
        if upper {
            'A'
        } else {
            'a'
        }
    } else if v == 11 {
        if upper {
            'B'
        } else {
            'b'
        }
    } else if v == 12 {
        if upper {
            'C'
        } else {
            'c'
        }
    } else if v == 13 {
        if upper {
            'D'
        } else {
            'd'
        }
    } else if v == 14 {
        if upper {
            'E'
        } else {
            'e'
        }
    } else {
        if upper {
            'F'
        } else {
            'f'
        }
    }
}

/// `v` rendered as exactly `digits` hex digits, most significant first;
/// exact when `v < 16^digits`.
pub open spec fn spec_hex_fixed(v: int, digits: nat, upper: bool) -> Seq<char>
    decreases digits,
{
    if digits == 0 {
        Seq::empty()
    } else {
        spec_hex_fixed(v / 16, (digits - 1) as nat, upper).push(spec_hex_digit(v % 16, upper))
    }
}

/// `v` rendered as lowercase hex with no padding, as `{:x}` formats it:
/// a single `0` for zero, no leading zeros otherwise.
pub open spec fn spec_hex_nopad(v: int) -> Seq<char>
    decreases v,
{
    if v < 16 {
        seq![spec_hex_digit(v, false)]
    } else {
        spec_hex_nopad(v / 16).push(spec_hex_digit(v % 16, false))
    }
}

/// The hex digit character for `v`.
fn hex_digit(v: u64, upper: bool) -> (c: char)
    requires
        v < 16,
    ensures
        c == spec_hex_digit(v as int, upper),
{
    if v == 0 {
        '0'
    } else if v == 1 {
        '1'
    } else if v == 2 {
        '2'
    } else if v == 3 {
        '3'
    } else if v == 4 {
        '4'
    } else if v == 5 {
        '5'
    } else if v == 6 {
        '6'
    } else if v == 7 {
        '7'
    } else if v == 8 {
        '8'
    } else if v == 9 {
        '9'
    } else if v == 10 {
        if upper {
            'A'
        } else {
            'a'
        }
    } else if v == 11 {
        if upper {
            'B'
        } else {
            'b'
        }
    } else if v == 12 {
        if upper {
            'C'
        } else {
            'c'
        }
    } else if v == 13 {
        if upper {
            'D'
        } else {
            'd'
        }
    } else if v == 14 {
        if upper {
            'E'
        } else {
            'e'
        }
    } else {
        if upper {
            'F'
        } else {
            'f'
        }
    }
}

/// Appends `v` rendered as exactly `digits` hex digits onto `out`.
pub fn append_hex_fixed(out: &mut String, v: u64, digits: u64, upper: bool)
    requires
        digits <= 16,
    ensures
        final(out)@ == old(out)@ + spec_hex_fixed(v as int, digits as nat, upper),
    decreases digits,
{
    if digits == 0 {
        proof {
            assert(old(out)@ + Seq::<char>::empty() =~= old(out)@);
        }
    } else {
        append_hex_fixed(out, v / 16, digits - 1, upper);
        push_char(out, hex_digit(v % 16, upper));
        proof {
            assert(old(out)@ + spec_hex_fixed(v as int / 16, (digits - 1) as nat, upper) + seq![
                spec_hex_digit(v as int % 16, upper),
            ] =~= old(out)@ + spec_hex_fixed(v as int, digits as nat, upper));
        }
    }
}

/// Appends `v` rendered as unpadded lowercase hex onto `out`.
pub fn append_hex_nopad(out: &mut String, v: u64)
    ensures
        final(out)@ == old(out)@ + spec_hex_nopad(v as int),
    decreases v,
{
    if v < 16 {
        push_char(out, hex_digit(v, false));
    } else {
        append_hex_nopad(out, v / 16);
        push_char(out, hex_digit(v % 16, false));
        proof {
            assert(old(out)@ + spec_hex_nopad(v as int / 16) + seq![
                spec_hex_digit(v as int % 16, false),
            ] =~= old(out)@ + spec_hex_nopad(v as int));
        }
    }
}

} // verus!
