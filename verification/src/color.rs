//! Colours of the icon: the fixed palette and the optional solid background.

use vstd::prelude::*;
use vstd::string::*;

verus! {

/// A colour as red, green and blue bytes.
pub type Rgb = (u8, u8, u8);

/// A pixel as red, green, blue and straight (non-premultiplied) alpha bytes.
pub type Rgba = (u8, u8, u8, u8);

/// Icon colour on dark panels.
pub const WHITE: (u8, u8, u8) = (255, 255, 255);

/// Icon colour on light panels.
pub const BLACK: (u8, u8, u8) = (0, 0, 0);

/// Colour of the whole icon while an alert is active.
pub const ALERT_COLOR: (u8, u8, u8) = (209, 71, 21);

/// A solid colour painted over the whole canvas before the segments.
#[derive(Clone, Copy, Debug)]
pub struct Background {
    pub rgba: (u8, u8, u8, u8),
}

/// The colour every segment of one frame is drawn in.
pub open spec fn spec_segment_color(alert_active: bool, use_light_icons: bool) -> Rgb {
    if alert_active {
        ALERT_COLOR
    } else if use_light_icons {
        WHITE
    } else {
        BLACK
    }
}

/// Picks the colour for every segment of a frame: the alert colour while an
/// alert is active, otherwise white for light icons and black for dark ones.
pub fn segment_color(alert_active: bool, use_light_icons: bool) -> (c: Rgb)
    ensures
        c == spec_segment_color(alert_active, use_light_icons),
{
    if alert_active {
        ALERT_COLOR
    } else if use_light_icons {
        WHITE
    } else {
        BLACK
    }
}

/// Whether a colour belongs to the fixed palette that icons are cached in.
pub open spec fn in_palette(c: Rgb) -> bool {
    c == WHITE || c == BLACK || c == ALERT_COLOR
}

/// Every colour a segment can be drawn in belongs to the palette.
pub proof fn lemma_segment_color_in_palette(alert_active: bool, use_light_icons: bool)
    ensures
        in_palette(spec_segment_color(alert_active, use_light_icons)),
{
}

/// The value of a hexadecimal digit in either case; `None` for any other
/// character.
pub open spec fn hex_value(c: char) -> Option<int> {
    let n = c as int;
    if 48 <= n <= 57 {
        Some(n - 48)
    } else if 97 <= n <= 102 {
        Some(n - 87)
    } else if 65 <= n <= 70 {
        Some(n - 55)
    } else {
        None
    }
}

/// The byte that two hexadecimal digits spell.
pub open spec fn hex_pair(high: char, low: char) -> Option<u8> {
    match (hex_value(high), hex_value(low)) {
        (Some(h), Some(l)) => Some((16 * h + l) as u8),
        _ => None,
    }
}

/// The digits of a colour in the notation of style sheets: the text
/// without its leading number sign, if it has one.
pub open spec fn hex_digits(text: Seq<char>) -> Seq<char> {
    if text.len() > 0 && text[0] == '#' {
        text.subrange(1, text.len() as int)
    } else {
        text
    }
}

/// The background that a text spells: six hexadecimal digits for an opaque
/// colour, eight for a colour with its alpha, with or without a leading
/// number sign. Any other text spells none.
pub open spec fn spec_parse_background(text: Seq<char>) -> Option<Background> {
    let d = hex_digits(text);
    if d.len() == 6 || d.len() == 8 {
        let alpha = if d.len() == 8 {
            hex_pair(d[6], d[7])
        } else {
            Some(255u8)
        };
        match (hex_pair(d[0], d[1]), hex_pair(d[2], d[3]), hex_pair(d[4], d[5]), alpha) {
            (Some(r), Some(g), Some(b), Some(a)) => Some(Background { rgba: (r, g, b, a) }),
            _ => None,
        }
    } else {
        None
    }
}

fn hex_digit_value(c: char) -> (r: Option<u8>)
    ensures
        r is Some == hex_value(c) is Some,
        r matches Some(v) ==> hex_value(c) == Some(v as int) && v < 16,
{
    let n = c as u32;
    if n >= 48 && n <= 57 {
        Some((n - 48) as u8)
    } else if n >= 97 && n <= 102 {
        Some((n - 87) as u8)
    } else if n >= 65 && n <= 70 {
        Some((n - 55) as u8)
    } else {
        None
    }
}

fn parse_hex_pair(text: &str, at: usize) -> (r: Option<u8>)
    requires
        at + 1 < text@.len() <= usize::MAX,
    ensures
        r == hex_pair(text@[at as int], text@[at + 1]),
{
    match (hex_digit_value(text.get_char(at)), hex_digit_value(text.get_char(at + 1))) {
        (Some(h), Some(l)) => Some(16 * h + l),
        _ => None,
    }
}

/// Reads a background from a text such as `#1a2b3c` or `1A2B3C80`.
pub fn parse_background(text: &str) -> (r: Option<Background>)
    ensures
        r == spec_parse_background(text@),
{
    let len = text.unicode_len();
    let start: usize = if len > 0 && text.get_char(0) == '#' {
        1
    } else {
        0
    };
    let ghost d = hex_digits(text@);
    assert(d =~= text@.subrange(start as int, len as int));
    let digits = len - start;
    if digits != 6 && digits != 8 {
        return None;
    }
    assert(forall|i: int| 0 <= i < digits ==> d[i] == text@[start + i]);
    let alpha = if digits == 8 {
        parse_hex_pair(text, start + 6)
    } else {
        Some(255)
    };
    match (parse_hex_pair(text, start), parse_hex_pair(text, start + 2), parse_hex_pair(text, start + 4), alpha) {
        (Some(r), Some(g), Some(b), Some(a)) => Some(Background { rgba: (r, g, b, a) }),
        _ => None,
    }
}

} // verus!
