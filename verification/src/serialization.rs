//! Small formatting helpers.

use vstd::prelude::*;
use crate::text::push_decimal;

verus! {

/// The character of the hexadecimal digit `d`, in lower case.
pub open spec fn hex_digit(d: int) -> char {
    if d < 10 {
        ((48 + d) as u8) as char
    } else {
        ((87 + d) as u8) as char
    }
}

/// The bytes in hexadecimal notation, two lower-case digits each.
pub open spec fn hex_of(bytes: Seq<u8>) -> Seq<char>
    decreases bytes.len(),
{
    if bytes.len() == 0 {
        Seq::<char>::empty()
    } else {
        hex_of(bytes.drop_last()).push(hex_digit(bytes.last() as int / 16)).push(
            hex_digit(bytes.last() as int % 16),
        )
    }
}

fn hex_char(d: u8) -> (c: char)
    requires
        d < 16,
    ensures
        c == hex_digit(d as int),
{
    if d < 10 {
        (48u8 + d) as char
    } else {
        (87u8 + d) as char
    }
}

/// The bytes in hexadecimal notation, two lower-case digits each.
pub fn bytes_to_hex(bytes: &[u8]) -> (s: String)
    ensures
        s@ == hex_of(bytes@),
{
    let mut s = String::new();
    let mut i: usize = 0;
    assert(bytes@.take(0) =~= Seq::<u8>::empty());
    while i < bytes.len()
        invariant
            i <= bytes@.len(),
            s@ == hex_of(bytes@.take(i as int)),
        decreases bytes@.len() - i,
    {
        proof {
            let t = bytes@.take(i + 1);
            assert(t.drop_last() =~= bytes@.take(i as int));
            assert(t.last() == bytes@[i as int]);
        }
        let b = bytes[i];
        s.push(hex_char(b / 16));
        s.push(hex_char(b % 16));
        i += 1;
    }
    assert(bytes@.take(bytes@.len() as int) =~= bytes@);
    s
}

/// The number of bytes in a kibibyte, a mebibyte and a gibibyte.
pub const KB: i64 = 1024;

pub const MB: i64 = 1024 * 1024;

pub const GB: i64 = 1024 * 1024 * 1024;

/// The unit in which a size is shown.
#[derive(Debug, Clone, Copy, PartialEq, Eq, Structural)]
pub enum SizeUnit {
    Bytes,
    Kilobytes,
    Megabytes,
    Gigabytes,
}

/// The unit in which a size is shown: the largest of which it holds at
/// least one; bytes for a size below a kibibyte, and for a negative size.
pub open spec fn unit_of(bytes: i64) -> SizeUnit {
    if bytes >= GB {
        SizeUnit::Gigabytes
    } else if bytes >= MB {
        SizeUnit::Megabytes
    } else if bytes >= KB {
        SizeUnit::Kilobytes
    } else {
        SizeUnit::Bytes
    }
}

/// The unit in which `bytes` is shown.
pub fn size_unit(bytes: i64) -> (u: SizeUnit)
    ensures
        u == unit_of(bytes),
{
    if bytes >= GB {
        SizeUnit::Gigabytes
    } else if bytes >= MB {
        SizeUnit::Megabytes
    } else if bytes >= KB {
        SizeUnit::Kilobytes
    } else {
        SizeUnit::Bytes
    }
}

/// A size in hundredths of its unit, rounded to the nearest hundredth; a
/// size that lies midway between two goes to the even one.
pub open spec fn hundredths(bytes: i64, unit: i64) -> int {
    let q = bytes * 100 / (unit as int);
    let r = bytes * 100 % (unit as int);
    if 2 * r > unit || (2 * r == unit && q % 2 == 1) {
        q + 1
    } else {
        q
    }
}

/// The decimal notation of a number of hundredths, with two decimals.
pub open spec fn two_decimals(h: nat) -> Seq<char> {
    crate::text::decimal(h / 100) + seq!['.'] + seq![
        crate::text::digit_char((h / 10 % 10) as int),
        crate::text::digit_char((h % 10) as int),
    ]
}

/// A size as it is shown: below a kibibyte as `<n> bytes`; from there on in
/// the largest unit that fits, with two decimals.
pub open spec fn size_text(bytes: i64) -> Seq<char> {
    match unit_of(bytes) {
        SizeUnit::Gigabytes => two_decimals(hundredths(bytes, GB) as nat) + " GB"@,
        SizeUnit::Megabytes => two_decimals(hundredths(bytes, MB) as nat) + " MB"@,
        SizeUnit::Kilobytes => two_decimals(hundredths(bytes, KB) as nat) + " KB"@,
        SizeUnit::Bytes => crate::text::signed_decimal(bytes) + " bytes"@,
    }
}

fn push_two_decimals(s: &mut String, h: u64)
    ensures
        final(s)@ == old(s)@ + two_decimals(h as nat),
{
    push_decimal(s, h / 100);
    s.push('.');
    let a: u8 = (h / 10 % 10) as u8;
    let b: u8 = (h % 10) as u8;
    s.push((48u8 + a) as char);
    s.push((48u8 + b) as char);
    assert(s@ =~= old(s)@ + two_decimals(h as nat));
}

fn rounded(q: u128, r: u128, unit: u128) -> (h: u128)
    requires
        q < 0x1_0000_0000_0000_0000,
        r < unit <= 0x4000_0000,
    ensures
        h == if 2 * r > unit || (2 * r == unit && q % 2 == 1) {
            q + 1
        } else {
            q as int
        },
{
    if 2 * r > unit || (2 * r == unit && q % 2 == 1) {
        q + 1
    } else {
        q
    }
}

fn scaled(bytes: i64, unit: i64) -> (h: u64)
    requires
        0 < bytes,
        unit == KB || unit == MB || unit == GB,
    ensures
        h == hundredths(bytes, unit),
{
    let wide: u128 = bytes as u128 * 100;
    let h: u128 = if unit == KB {
        rounded(wide / 1024, wide % 1024, 1024)
    } else if unit == MB {
        rounded(wide / 0x10_0000, wide % 0x10_0000, 0x10_0000)
    } else {
        rounded(wide / 0x4000_0000, wide % 0x4000_0000, 0x4000_0000)
    };
    h as u64
}

/// A size as it is shown to a reader.
pub fn format_bytes(bytes: i64) -> (s: String)
    ensures
        s@ == size_text(bytes),
{
    let mut s = String::new();
    match size_unit(bytes) {
        SizeUnit::Gigabytes => {
            push_two_decimals(&mut s, scaled(bytes, GB));
            s.append(" GB");
        },
        SizeUnit::Megabytes => {
            push_two_decimals(&mut s, scaled(bytes, MB));
            s.append(" MB");
        },
        SizeUnit::Kilobytes => {
            push_two_decimals(&mut s, scaled(bytes, KB));
            s.append(" KB");
        },
        SizeUnit::Bytes => {
            crate::text::push_signed(&mut s, bytes);
            s.append(" bytes");
        },
    }
    assert(s@ =~= size_text(bytes));
    s
}

} // verus!
