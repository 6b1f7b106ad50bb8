//! Decimal and hexadecimal helpers: reading numbers out of byte strings
//! and rendering them back.

use vstd::prelude::*;

verus! {

use crate::ascii::{D0, D9, LC_A, LC_F, UC_A, UC_F};

pub open spec fn is_digit(b: u8) -> bool {
    D0 <= b && b <= D9
}

/// The value of the decimal digits of `s` from position `i` on, given an
/// accumulator: `None` on a non-digit byte or on overflow past `u32`.
pub open spec fn spec_dec_val(s: Seq<u8>, i: int, acc: u32) -> Option<u32>
    decreases s.len() - i,
{
    if i < 0 || i >= s.len() {
        Some(acc)
    } else if !is_digit(s[i]) {
        None
    } else if acc * 10 + (s[i] - D0) > u32::MAX {
        None
    } else {
        spec_dec_val(s, i + 1, (acc * 10 + (s[i] - D0)) as u32)
    }
}

/// The `u32` a whole byte string denotes in decimal, if it is non-empty
/// and all digits and fits.
pub open spec fn spec_dec_of(s: Seq<u8>) -> Option<u32> {
    if s.len() == 0 {
        None
    } else {
        spec_dec_val(s, 0, 0)
    }
}

fn dec_val_from(s: &Vec<u8>, i: usize, acc: u32) -> (r: Option<u32>)
    requires
        i <= s.len(),
    ensures
        r == spec_dec_val(s@, i as int, acc),
    decreases s.len() - i,
{
    if i >= s.len() {
        Some(acc)
    } else {
        let b = s[i];
        if b < D0 || b > D9 {
            None
        } else {
            let wide: u64 = (acc as u64) * 10 + ((b - D0) as u64);
            if wide > (u32::MAX as u64) {
                None
            } else {
                dec_val_from(s, i + 1, wide as u32)
            }
        }
    }
}

/// Reads a whole byte string as a decimal `u32`, exactly as
/// [`spec_dec_of`] describes.
pub fn dec_of(s: &Vec<u8>) -> (r: Option<u32>)
    ensures
        r == spec_dec_of(s@),
{
    if s.len() == 0 {
        None
    } else {
        dec_val_from(s, 0, 0)
    }
}

/// The decimal digits of `n`, most significant first.
pub open spec fn spec_dec_digits(n: nat) -> Seq<u8>
    decreases n,
{
    if n <= 9 {
        seq![(D0 + n) as u8]
    } else {
        spec_dec_digits(n / 10).push((D0 + n % 10) as u8)
    }
}

/// Appends the decimal rendering of `n` to `out`.
pub fn push_dec(out: &mut Vec<u8>, n: u32)
    ensures
        final(out)@ == old(out)@ + spec_dec_digits(n as nat),
    decreases n,
{
    if n <= 9 {
        out.push(D0 + (n as u8));
        proof {
            assert(out@ =~= old(out)@ + spec_dec_digits(n as nat));
        }
    } else {
        push_dec(out, n / 10);
        out.push(D0 + ((n % 10) as u8));
        proof {
            assert(out@ =~= old(out)@ + spec_dec_digits(n as nat));
        }
    }
}

pub open spec fn is_hex_digit(b: u8) -> bool {
    is_digit(b) || (LC_A <= b && b <= LC_F) || (UC_A <= b && b <= UC_F)
}

/// The value of one hexadecimal digit byte.
pub open spec fn spec_hex_digit_val(b: u8) -> int {
    if is_digit(b) {
        b - D0
    } else if LC_A <= b && b <= LC_F {
        b - LC_A + 10
    } else {
        b - UC_A + 10
    }
}

/// The value of a hex group read from position `i` on, with at most 4
/// digits in all: `None` on a non-hex byte.
pub open spec fn spec_hex_val(s: Seq<u8>, i: int, acc: u16) -> Option<u16>
    decreases s.len() - i,
{
    if i < 0 || i >= s.len() {
        Some(acc)
    } else if !is_hex_digit(s[i]) {
        None
    } else {
        spec_hex_val(s, i + 1, (acc * 16 + spec_hex_digit_val(s[i])) as u16)
    }
}

/// The `u16` a whole byte string denotes as a hex group of 1 to 4
/// digits.
pub open spec fn spec_hex_of(s: Seq<u8>) -> Option<u16> {
    if 1 <= s.len() <= 4 {
        spec_hex_val(s, 0, 0)
    } else {
        None
    }
}

fn hex_val_from(s: &Vec<u8>, i: usize, acc: u16) -> (r: Option<u16>)
    requires
        i <= s.len(),
        s.len() <= 4,
        s.len() - i >= 1 ==> acc < 0x1000,
        s.len() - i >= 2 ==> acc < 0x100,
        s.len() - i >= 3 ==> acc < 0x10,
        s.len() - i >= 4 ==> acc == 0,
    ensures
        r == spec_hex_val(s@, i as int, acc),
    decreases s.len() - i,
{
    if i >= s.len() {
        Some(acc)
    } else {
        let b = s[i];
        let d: u16 = if b >= D0 && b <= D9 {
            (b - D0) as u16
        } else if b >= LC_A && b <= LC_F {
            (b - LC_A) as u16 + 10
        } else if b >= UC_A && b <= UC_F {
            (b - UC_A) as u16 + 10
        } else {
            return None;
        };
        hex_val_from(s, i + 1, acc * 16 + d)
    }
}

/// Reads a whole byte string as a 1-to-4-digit hex group, exactly as
/// [`spec_hex_of`] describes.
pub fn hex_of(s: &Vec<u8>) -> (r: Option<u16>)
    ensures
        r == spec_hex_of(s@),
{
    if s.len() >= 1 && s.len() <= 4 {
        hex_val_from(s, 0, 0)
    } else {
        None
    }
}

/// The lowercase hex digit byte of a value below 16.
pub open spec fn spec_hex_char(d: int) -> u8 {
    if d <= 9 {
        (D0 + d) as u8
    } else {
        (LC_A + (d - 10)) as u8
    }
}

/// The lowercase hex digits of `n`, most significant first.
pub open spec fn spec_hex_digits(n: nat) -> Seq<u8>
    decreases n,
{
    if n <= 15 {
        seq![spec_hex_char(n as int)]
    } else {
        spec_hex_digits(n / 16).push(spec_hex_char((n % 16) as int))
    }
}

fn hex_char(d: u16) -> (r: u8)
    requires
        d < 16,
    ensures
        r == spec_hex_char(d as int),
{
    if d <= 9 {
        D0 + (d as u8)
    } else {
        LC_A + ((d - 10) as u8)
    }
}

/// Appends the minimal lowercase hex rendering of `n` to `out`.
pub fn push_hex(out: &mut Vec<u8>, n: u16)
    ensures
        final(out)@ == old(out)@ + spec_hex_digits(n as nat),
    decreases n,
{
    if n <= 15 {
        let c = hex_char(n);
        out.push(c);
        proof {
            assert(out@ =~= old(out)@ + spec_hex_digits(n as nat));
        }
    } else {
        push_hex(out, n / 16);
        let c = hex_char(n % 16);
        out.push(c);
        proof {
            assert(out@ =~= old(out)@ + spec_hex_digits(n as nat));
        }
    }
}

} // verus!
