//! Transfer rates as short texts with a unit, such as `1.5 MB`.

use vstd::prelude::*;
use vstd::string::*;
use crate::percent::{digit_char, two_digits};

verus! {

/// From this many bytes per second a rate is given in megabytes.
pub const THRESHOLD_KB: u64 = 99_500;

/// From this many bytes per second a rate is given in gigabytes.
pub const THRESHOLD_MB: u64 = 99_500_000;

/// From this many bytes per second a rate is given in terabytes.
pub const THRESHOLD_GB: u64 = 99_500_000_000;

/// The largest rate that is told apart: 9.9 terabytes per second.
pub const RATE_CAP: u64 = 9_900_000_000_000;

/// The unit of a rate: 0 for KB, 1 for MB, 2 for GB and 3 for TB. The next
/// unit begins where the number would round to a hundred.
pub open spec fn unit_index(rate: int) -> int {
    if rate >= THRESHOLD_GB as int {
        3
    } else if rate >= THRESHOLD_MB as int {
        2
    } else if rate >= THRESHOLD_KB as int {
        1
    } else {
        0
    }
}

/// The number of bytes in a unit.
pub open spec fn unit_size(unit: int) -> int {
    if unit == 0 {
        1_000
    } else if unit == 1 {
        1_000_000
    } else if unit == 2 {
        1_000_000_000
    } else {
        1_000_000_000_000
    }
}

/// The name of a unit.
pub open spec fn unit_name(unit: int) -> Seq<char> {
    if unit == 0 {
        "KB"@
    } else if unit == 1 {
        "MB"@
    } else if unit == 2 {
        "GB"@
    } else {
        "TB"@
    }
}

/// Whether a rate is written with one decimal: it is below ten units, or in
/// terabytes.
pub open spec fn has_decimal(rate: int) -> bool {
    unit_index(rate) == 3 || rate < 10 * unit_size(unit_index(rate))
}

/// The tenths of its unit that a rate holds, rounded down.
pub open spec fn tenths_below(rate: int) -> int {
    let unit = unit_index(rate);
    if unit == 0 {
        rate / 100
    } else if unit == 1 {
        rate / 100_000
    } else if unit == 2 {
        rate / 100_000_000
    } else {
        rate / 100_000_000_000
    }
}

/// What a rate holds beyond its whole tenths, in bytes.
pub open spec fn beyond_tenths(rate: int) -> int {
    let unit = unit_index(rate);
    if unit == 0 {
        rate % 100
    } else if unit == 1 {
        rate % 100_000
    } else if unit == 2 {
        rate % 100_000_000
    } else {
        rate % 100_000_000_000
    }
}

/// Whether a rate lies exactly in the middle between two tenths of its
/// unit.
pub open spec fn is_halfway(rate: int) -> bool {
    20 * beyond_tenths(rate) == unit_size(unit_index(rate))
}

/// The power of two that scales the quotient `n / d` into the range of a
/// 53-bit significand, from 2^52 up to 2^53, for quotients from a
/// thirty-second up to sixteen.
pub open spec fn significand_scale(n: int, d: int) -> int {
    if n >= 8 * d {
        0x2_0000_0000_0000
    } else if n >= 4 * d {
        0x4_0000_0000_0000
    } else if n >= 2 * d {
        0x8_0000_0000_0000
    } else if n >= d {
        0x10_0000_0000_0000
    } else if 2 * n >= d {
        0x20_0000_0000_0000
    } else if 4 * n >= d {
        0x40_0000_0000_0000
    } else if 8 * n >= d {
        0x80_0000_0000_0000
    } else if 16 * n >= d {
        0x100_0000_0000_0000
    } else {
        0x200_0000_0000_0000
    }
}

/// What is cut off when the quotient `n / d` is written with a 53-bit
/// significand, as a numerator over `d`: nothing if the quotient is a
/// binary fraction of that length.
pub open spec fn significand_rest(n: int, d: int) -> int {
    (n * significand_scale(n, d)) % d
}

/// Whether a rate in the middle between two tenths goes to the upper one.
/// It goes where the double-precision number nearest to the rate in its
/// unit lies: up if that number is larger than the rate, down if it is
/// smaller, and to the even tenth if it is the rate itself.
pub open spec fn halfway_goes_up(rate: int) -> bool {
    let size = unit_size(unit_index(rate));
    let rest = significand_rest(rate, size);
    if rest == 0 {
        tenths_below(rate) % 2 == 1
    } else {
        2 * rest > size
    }
}

/// The number of a rate that is written with one decimal, in tenths of its
/// unit, rounded to nearest. Rates above the cap count as the cap. A rate
/// in the middle between two tenths is rounded as texts of double-precision
/// numbers are (see [`halfway_goes_up`]).
pub open spec fn rate_tenths(rate: int) -> int {
    let size = unit_size(unit_index(rate));
    let below = tenths_below(rate);
    let beyond = 20 * beyond_tenths(rate);
    if rate > RATE_CAP as int {
        99
    } else if beyond < size {
        below
    } else if beyond > size {
        below + 1
    } else if halfway_goes_up(rate) {
        below + 1
    } else {
        below
    }
}

/// The number of a rate that is written without decimals: whole units,
/// rounded to nearest with halves upwards, and 99 at most.
pub open spec fn rate_whole(rate: int) -> int {
    let unit = unit_index(rate);
    let n = if unit == 0 {
        (rate + 500) / 1_000
    } else if unit == 1 {
        (rate + 500_000) / 1_000_000
    } else if unit == 2 {
        (rate + 500_000_000) / 1_000_000_000
    } else {
        (rate + 500_000_000_000) / 1_000_000_000_000
    };
    if n > 99 {
        99
    } else {
        n
    }
}

/// The text of a rate: its number, a space and its unit. Below ten units
/// the number has one decimal; from ten units on it has none.
pub open spec fn speed_chars(rate: int) -> Seq<char> {
    let unit = unit_index(rate);
    if has_decimal(rate) {
        let t = rate_tenths(rate);
        two_digits(t / 10).push('.').push(digit_char(t % 10)).push(' ') + unit_name(unit)
    } else {
        two_digits(rate_whole(rate)).push(' ') + unit_name(unit)
    }
}

fn push_number(s: &mut String, n: u8)
    requires
        n < 100,
    ensures
        final(s)@ == old(s)@ + two_digits(n as int),
{
    if n >= 10 {
        s.push((n / 10 + 48) as char);
        s.push((n % 10 + 48) as char);
    } else {
        s.push((n + 48) as char);
    }
    proof {
        assert(s@ =~= old(s)@ + two_digits(n as int));
    }
}

fn goes_up(rate: u128, size: u128, below: u128) -> (r: bool)
    requires
        rate < 10_000_000_000_000,
        0 < size <= 1_000_000_000_000,
    ensures
        r == (if significand_rest(rate as int, size as int) == 0 {
            below % 2 == 1
        } else {
            2 * significand_rest(rate as int, size as int) > size
        }),
{
    let scale: u128 = if rate >= 8 * size {
        0x2_0000_0000_0000
    } else if rate >= 4 * size {
        0x4_0000_0000_0000
    } else if rate >= 2 * size {
        0x8_0000_0000_0000
    } else if rate >= size {
        0x10_0000_0000_0000
    } else if 2 * rate >= size {
        0x20_0000_0000_0000
    } else if 4 * rate >= size {
        0x40_0000_0000_0000
    } else if 8 * rate >= size {
        0x80_0000_0000_0000
    } else if 16 * rate >= size {
        0x100_0000_0000_0000
    } else {
        0x200_0000_0000_0000
    };
    assert(scale == significand_scale(rate as int, size as int));
    assert(0 <= rate * scale <= 10_000_000_000_000 * 0x200_0000_0000_0000) by (nonlinear_arith)
        requires
            0 <= rate <= 10_000_000_000_000,
            0 <= scale <= 0x200_0000_0000_0000,
    ;
    let rest: u128 = (rate * scale) % size;
    if rest == 0 {
        below % 2 == 1
    } else {
        2 * rest > size
    }
}

/// Writes a rate in bytes per second as a short text with a unit, such as
/// `0.5 KB`, `10 MB` or `9.9 TB`. The number is rounded to nearest and
/// reads as the text of the double-precision quotient does, also where
/// the rate lies in the middle between two tenths.
pub fn format_speed(bytes_per_sec: u64) -> (s: String)
    ensures
        s@ == speed_chars(bytes_per_sec as int),
{
    let (unit, size, name): (u8, u64, &str) = if bytes_per_sec >= THRESHOLD_GB {
        (3, 1_000_000_000_000, "TB")
    } else if bytes_per_sec >= THRESHOLD_MB {
        (2, 1_000_000_000, "GB")
    } else if bytes_per_sec >= THRESHOLD_KB {
        (1, 1_000_000, "MB")
    } else {
        (0, 1_000, "KB")
    };
    assert(size == unit_size(unit as int) && unit == unit_index(bytes_per_sec as int) && name@
        == unit_name(unit as int));
    let mut s = String::new();
    let rate: u128 = bytes_per_sec as u128;
    let size: u128 = size as u128;
    if unit == 3 || rate < 10 * size {
        let tenth: u128 = size / 10;
        let below: u128 = rate / tenth;
        let beyond: u128 = 20 * (rate % tenth);
        assert(below == tenths_below(bytes_per_sec as int) && beyond == 20 * beyond_tenths(
            bytes_per_sec as int,
        ));
        let tenths: u128 = if bytes_per_sec > RATE_CAP {
            99
        } else if beyond < size {
            below
        } else if beyond > size {
            below + 1
        } else if goes_up(rate, size, below) {
            below + 1
        } else {
            below
        };
        assert(tenths == rate_tenths(bytes_per_sec as int));
        assert(tenths <= 100);
        push_number(&mut s, (tenths / 10) as u8);
        s.push('.');
        s.push(((tenths % 10) as u8 + 48) as char);
    } else {
        let n: u128 = (rate + size / 2) / size;
        let whole: u8 = if n > 99 {
            99
        } else {
            n as u8
        };
        push_number(&mut s, whole);
    }
    s.push(' ');
    s.append(name);
    proof {
        assert(s@ =~= speed_chars(bytes_per_sec as int));
    }
    s
}

} // verus!
