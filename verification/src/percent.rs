//! Percent readings and how they are shown.
//!
//! A reading is a fixed-point number in thousandths of a percent, so that
//! `42_500` stands for 42.5 %. Readings may be negative or exceed 100 %.

use vstd::prelude::*;

verus! {

/// One percent, in thousandths.
pub const PERCENT: i64 = 1_000;

/// The largest value that is displayed: 99 %.
pub const DISPLAY_CAP: i64 = 99_000;

/// Readings at or above this value raise an alert: 90 %.
pub const ALERT_THRESHOLD: i64 = 90_000;

/// A reading limited to the displayable range of 0 % to 99 %.
pub open spec fn spec_cap_percent(value: int) -> int {
    if value < 0 {
        0
    } else if value > DISPLAY_CAP as int {
        DISPLAY_CAP as int
    } else {
        value
    }
}

/// The whole number nearest to a non-negative reading; a reading exactly
/// halfway between two whole numbers goes to the even one.
pub open spec fn rounded_half_even(value: int) -> int {
    let whole = value / 1000;
    let rest = value % 1000;
    if rest > 500 || (rest == 500 && whole % 2 == 1) {
        whole + 1
    } else {
        whole
    }
}

/// The whole number of percent shown for a reading: between 0 and 99.
pub open spec fn displayed_percent(value: int) -> int {
    rounded_half_even(spec_cap_percent(value))
}

/// The character of a decimal digit.
pub open spec fn digit_char(d: int) -> char {
    (d + 48) as char
}

/// The decimal digits of a number below 100, without a leading zero.
pub open spec fn two_digits(n: int) -> Seq<char> {
    if n < 10 {
        seq![digit_char(n)]
    } else {
        seq![digit_char(n / 10), digit_char(n % 10)]
    }
}

/// The text shown for a reading: its displayed percent and a percent sign.
pub open spec fn percent_chars(value: int) -> Seq<char> {
    two_digits(displayed_percent(value)).push('%')
}

/// Whether a reading raises an alert.
pub open spec fn spec_is_alerting(value: int) -> bool {
    value >= ALERT_THRESHOLD as int
}

/// Limits a reading to the displayable range, 0 % to 99 %, so that the text
/// of a saturated metric is as wide as that of any other.
pub fn cap_percent(value: i64) -> (r: i64)
    ensures
        r == spec_cap_percent(value as int),
        0 <= r <= DISPLAY_CAP,
        value <= 0 ==> r == 0,
        value >= 100 * PERCENT ==> r == DISPLAY_CAP,
        0 < value < DISPLAY_CAP ==> r == value,
{
    if value < 0 {
        0
    } else if value > DISPLAY_CAP {
        DISPLAY_CAP
    } else {
        value
    }
}

/// The whole number of percent to show for a reading.
pub fn display_percent(value: i64) -> (n: u8)
    ensures
        n == displayed_percent(value as int),
        n <= 99,
{
    let capped = cap_percent(value);
    let whole = capped / 1000;
    let rest = capped % 1000;
    if rest > 500 || (rest == 500 && whole % 2 == 1) {
        (whole + 1) as u8
    } else {
        whole as u8
    }
}

/// Whether a reading raises an alert: it does from 90 % upwards.
pub fn is_alerting(value: i64) -> (r: bool)
    ensures
        r == spec_is_alerting(value as int),
{
    value >= ALERT_THRESHOLD
}

fn digit(d: u8) -> (c: char)
    requires
        d < 10,
    ensures
        c == digit_char(d as int),
{
    (d + 48) as char
}

/// The text shown for a reading, such as `"42%"`.
pub fn percent_text(value: i64) -> (s: String)
    ensures
        s@ == percent_chars(value as int),
{
    let n = display_percent(value);
    let mut s = String::new();
    if n >= 10 {
        s.push(digit(n / 10));
        s.push(digit(n % 10));
    } else {
        s.push(digit(n));
    }
    s.push('%');
    proof {
        assert(s@ =~= percent_chars(value as int));
    }
    s
}

/// The displayed percent never leaves the range 0 to 99 and does not
/// decrease when the reading grows.
pub proof fn lemma_displayed_percent_monotonic(a: int, b: int)
    requires
        a <= b,
    ensures
        0 <= displayed_percent(a) <= displayed_percent(b) <= 99,
{
}

} // verus!
