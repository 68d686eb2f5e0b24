//! Icon rasters: tinting of the vector sources, conversion of the
//! rasterizer's output to straight alpha, and the cache of finished rasters.
//!
//! Rasterizing a vector document is left to the caller. This module says
//! which documents to rasterize ([`IconCache::keys`] and [`tinted_svg`]) and
//! takes the pixels from there ([`IconCache::new`]).

use std::collections::HashMap;
use vstd::prelude::*;
use vstd::string::*;
use crate::color::{in_palette, Rgb, ALERT_COLOR, BLACK, WHITE};
use crate::layout::IconType;
use crate::strings::{replace_all, replace_str};

verus! {

broadcast use vstd::std_specs::hash::group_hash_axioms;

/// The character of a hexadecimal digit, in lower case.
pub open spec fn hex_digit_char(d: int) -> char {
    if d < 10 {
        (d + 48) as char
    } else {
        (d + 87) as char
    }
}

/// A colour in the notation of style sheets: `#rrggbb`.
pub open spec fn hex_chars(color: Rgb) -> Seq<char> {
    seq![
        '#',
        hex_digit_char(color.0 as int / 16),
        hex_digit_char(color.0 as int % 16),
        hex_digit_char(color.1 as int / 16),
        hex_digit_char(color.1 as int % 16),
        hex_digit_char(color.2 as int / 16),
        hex_digit_char(color.2 as int % 16),
    ]
}

/// The placeholder in a vector source that stands for the fill colour.
pub open spec fn color_token() -> Seq<char> {
    "currentColor"@
}

/// The beginning of the root element of a vector source.
pub open spec fn root_tag() -> Seq<char> {
    "<svg "@
}

/// The beginning of the root element with a fill attribute forced in.
pub open spec fn filled_root_tag(color: Rgb) -> Seq<char> {
    "<svg fill=\""@ + hex_chars(color) + "\" "@
}

/// A vector source tinted in `color`: the colour replaces every placeholder
/// token, and the root element gets a fill attribute of that colour.
pub open spec fn spec_tinted_svg(svg: Seq<char>, color: Rgb) -> Seq<char> {
    replace_all(replace_all(svg, color_token(), hex_chars(color)), root_tag(), filled_root_tag(color))
}

fn hex_digit(d: u8) -> (c: char)
    requires
        d < 16,
    ensures
        c == hex_digit_char(d as int),
{
    if d < 10 {
        (d + 48) as char
    } else {
        (d + 87) as char
    }
}

/// Writes a colour as `#rrggbb`.
pub fn color_hex(color: Rgb) -> (s: String)
    ensures
        s@ == hex_chars(color),
{
    let mut s = String::new();
    s.push('#');
    s.push(hex_digit(color.0 / 16));
    s.push(hex_digit(color.0 % 16));
    s.push(hex_digit(color.1 / 16));
    s.push(hex_digit(color.1 % 16));
    s.push(hex_digit(color.2 / 16));
    s.push(hex_digit(color.2 % 16));
    proof {
        assert(s@ =~= hex_chars(color));
    }
    s
}

/// Tints a vector source, so that one source serves every colour.
pub fn tinted_svg(svg_data: &str, color: Rgb) -> (r: String)
    ensures
        r@ == spec_tinted_svg(svg_data@, color),
{
    let hex = color_hex(color);
    proof {
        reveal_strlit("currentColor");
        reveal_strlit("<svg ");
    }
    let with_color = replace_str(svg_data, "currentColor", hex.as_str());
    let mut tag = String::from_str("<svg fill=\"");
    tag.append(hex.as_str());
    tag.append("\" ");
    replace_str(with_color.as_str(), "<svg ", tag.as_str())
}

/// A colour channel of a premultiplied pixel brought back to straight
/// alpha: divided by the alpha, scaled to 255 and limited to a byte. Fully
/// transparent and fully opaque pixels stay as they are.
pub open spec fn straight_channel(c: u8, alpha: u8) -> u8 {
    if 0 < alpha < 255 {
        let v = c as int * 255 / alpha as int;
        if v > 255 {
            255u8
        } else {
            v as u8
        }
    } else {
        c
    }
}

/// An RGBA8 raster brought from premultiplied to straight alpha. Alpha
/// bytes stay, and so do bytes behind the last complete pixel.
pub open spec fn unpremultiplied(px: Seq<u8>) -> Seq<u8> {
    Seq::new(
        px.len(),
        |i: int|
            if i % 4 != 3 && i - i % 4 + 3 < px.len() {
                straight_channel(px[i], px[i - i % 4 + 3])
            } else {
                px[i]
            },
    )
}

fn straighten(c: u8, alpha: u8) -> (r: u8)
    requires
        0 < alpha < 255,
    ensures
        r == straight_channel(c, alpha),
{
    let v: u16 = c as u16 * 255 / alpha as u16;
    if v > 255 {
        255
    } else {
        v as u8
    }
}

/// Brings an RGBA8 raster from premultiplied to straight alpha in place, so
/// that compositing can treat colour and alpha independently.
pub fn unpremultiply(pixels: &mut Vec<u8>)
    ensures
        final(pixels)@ == unpremultiplied(old(pixels)@),
{
    let ghost orig = pixels@;
    let len = pixels.len();
    let mut i: usize = 0;
    while len - i >= 4
        invariant
            i <= len,
            i % 4 == 0,
            len == orig.len(),
            pixels@.len() == len,
            forall|j: int| 0 <= j < i ==> #[trigger] pixels@[j] == unpremultiplied(orig)[j],
            forall|j: int| i <= j < len ==> #[trigger] pixels@[j] == orig[j],
        decreases len - i,
    {
        let alpha = pixels[i + 3];
        if alpha > 0 && alpha < 255 {
            let r = straighten(pixels[i], alpha);
            let g = straighten(pixels[i + 1], alpha);
            let b = straighten(pixels[i + 2], alpha);
            pixels.set(i, r);
            pixels.set(i + 1, g);
            pixels.set(i + 2, b);
        }
        i += 4;
    }
    proof {
        assert(pixels@ =~= unpremultiplied(orig));
    }
}

/// Unpremultiplying changes neither the length of a raster nor any alpha.
pub proof fn lemma_unpremultiplied_keeps_alpha(px: Seq<u8>)
    ensures
        unpremultiplied(px).len() == px.len(),
        forall|i: int| 0 <= i < px.len() && i % 4 == 3 ==> #[trigger] unpremultiplied(px)[i] == px[i],
{
}

/// Position of an icon in the fixed order in which icons are rasterized.
pub open spec fn icon_index(icon: IconType) -> int {
    match icon {
        IconType::Cpu => 0,
        IconType::Memory => 1,
        IconType::Gpu => 2,
        IconType::ArrowDown => 3,
        IconType::ArrowUp => 4,
    }
}

/// The icon at a position of the fixed order.
pub open spec fn icon_of_index(i: int) -> IconType {
    if i == 0 {
        IconType::Cpu
    } else if i == 1 {
        IconType::Memory
    } else if i == 2 {
        IconType::Gpu
    } else if i == 3 {
        IconType::ArrowDown
    } else {
        IconType::ArrowUp
    }
}

/// The colour at a position of the palette: white, black, alert.
pub open spec fn palette_color(j: int) -> Rgb {
    if j == 0 {
        WHITE
    } else if j == 1 {
        BLACK
    } else {
        ALERT_COLOR
    }
}

/// How many rasters a cache holds: five icons in three colours each.
pub const CACHE_ENTRIES: usize = 15;

/// The keys of a cache in the order in which their rasters are handed to
/// [`IconCache::new`]: icon by icon, and for each icon the palette.
pub open spec fn cache_keys() -> Seq<(IconType, Rgb)> {
    Seq::new(CACHE_ENTRIES as nat, |k: int| (icon_of_index(k / 3), palette_color(k % 3)))
}

/// The number under which a raster is filed.
pub open spec fn packed_key(icon: IconType, color: Rgb) -> u32 {
    (icon_index(icon) * 0x100_0000 + color.0 as int * 0x1_0000 + color.1 as int * 0x100 + color.2 as int) as u32
}

fn pack_key(icon: IconType, color: Rgb) -> (k: u32)
    ensures
        k == packed_key(icon, color),
{
    let i: u32 = match icon {
        IconType::Cpu => 0,
        IconType::Memory => 1,
        IconType::Gpu => 2,
        IconType::ArrowDown => 3,
        IconType::ArrowUp => 4,
    };
    i * 0x100_0000 + color.0 as u32 * 0x1_0000 + color.1 as u32 * 0x100 + color.2 as u32
}

proof fn lemma_packed_key_injective(a: (IconType, Rgb), b: (IconType, Rgb))
    requires
        packed_key(a.0, a.1) == packed_key(b.0, b.1),
    ensures
        a == b,
{
}

/// The finished rasters of all icons at one size, each a square of that
/// side in RGBA8 with straight alpha, by icon and colour.
pub struct IconCache {
    size: u32,
    icons: HashMap<u32, Vec<u8>>,
}

impl IconCache {
    /// Side of the rasters in pixels.
    pub closed spec fn size(&self) -> u32 {
        self.size
    }

    /// Whether the cache holds a raster of `icon` in `color`.
    pub closed spec fn has(&self, icon: IconType, color: Rgb) -> bool {
        self.icons@.contains_key(packed_key(icon, color))
    }

    /// The raster of `icon` in `color`.
    pub closed spec fn raster(&self, icon: IconType, color: Rgb) -> Seq<u8> {
        self.icons@[packed_key(icon, color)]@
    }

    /// A complete cache holds a raster for every icon in every colour of the
    /// palette, and nothing else.
    pub open spec fn complete(&self) -> bool {
        forall|icon: IconType, color: Rgb| #[trigger] self.has(icon, color) <==> in_palette(color)
    }

    /// The keys of a cache, in the order in which [`IconCache::new`] takes
    /// their rasters.
    pub fn keys() -> (r: Vec<(IconType, Rgb)>)
        ensures
            r@ == cache_keys(),
    {
        let icons = [IconType::Cpu, IconType::Memory, IconType::Gpu, IconType::ArrowDown, IconType::ArrowUp];
        let colors = [WHITE, BLACK, ALERT_COLOR];
        let mut r: Vec<(IconType, Rgb)> = Vec::new();
        let mut k: usize = 0;
        while k < CACHE_ENTRIES
            invariant
                k <= CACHE_ENTRIES,
                r@.len() == k,
                forall|i: int| 0 <= i < 5 ==> #[trigger] icons@[i] == icon_of_index(i),
                forall|j: int| 0 <= j < 3 ==> #[trigger] colors@[j] == palette_color(j),
                forall|n: int| 0 <= n < k ==> #[trigger] r@[n] == cache_keys()[n],
            decreases CACHE_ENTRIES - k,
        {
            r.push((icons[k / 3], colors[k % 3]));
            k += 1;
        }
        proof {
            assert(r@ =~= cache_keys());
        }
        r
    }

    /// Builds the cache for icons of side `size` from the output of the
    /// rasterizer: one premultiplied RGBA8 raster for each key, in the order
    /// of [`IconCache::keys`]. Each raster is stored in straight alpha.
    pub fn new(size: u32, rasters: Vec<Vec<u8>>) -> (cache: IconCache)
        requires
            rasters@.len() == CACHE_ENTRIES,
        ensures
            cache.size() == size,
            cache.complete(),
            forall|k: int|
                0 <= k < CACHE_ENTRIES ==> cache.raster(
                    (#[trigger] cache_keys()[k]).0,
                    cache_keys()[k].1,
                ) == unpremultiplied(rasters@[k]@),
    {
        let keys = IconCache::keys();
        let mut rasters = rasters;
        let ghost all = rasters@;
        let mut icons: HashMap<u32, Vec<u8>> = HashMap::new();
        let mut k: usize = CACHE_ENTRIES;
        while k > 0
            invariant
                k <= CACHE_ENTRIES,
                keys@ == cache_keys(),
                all.len() == CACHE_ENTRIES,
                rasters@ == all.subrange(0, k as int),
                forall|n: int|
                    k <= n < CACHE_ENTRIES ==> {
                        let key = #[trigger] packed_key(cache_keys()[n].0, cache_keys()[n].1);
                        icons@.contains_key(key) && icons@[key]@ == unpremultiplied(all[n]@)
                    },
                forall|key: u32|
                    icons@.contains_key(key) ==> exists|n: int|
                        k <= n < CACHE_ENTRIES && key == #[trigger] packed_key(
                            cache_keys()[n].0,
                            cache_keys()[n].1,
                        ),
            decreases k,
        {
            k -= 1;
            let popped = rasters.pop();
            let mut raster = match popped {
                Some(r) => r,
                None => Vec::new(),
            };
            assert(raster@ == all[k as int]@);
            unpremultiply(&mut raster);
            let (icon, color) = keys[k];
            let key = pack_key(icon, color);
            proof {
                assert forall|n: int| k < n < CACHE_ENTRIES implies packed_key(
                    cache_keys()[n].0,
                    cache_keys()[n].1,
                ) != key by {
                    if packed_key(cache_keys()[n].0, cache_keys()[n].1) == key {
                        lemma_packed_key_injective(cache_keys()[n], cache_keys()[k as int]);
                    }
                }
            }
            icons.insert(key, raster);
        }
        let cache = IconCache { size, icons };
        proof {
            assert forall|icon: IconType, color: Rgb| #[trigger] cache.has(icon, color) <==> in_palette(
                color,
            ) by {
                if in_palette(color) {
                    let j = if color == WHITE {
                        0int
                    } else if color == BLACK {
                        1int
                    } else {
                        2int
                    };
                    let n = icon_index(icon) * 3 + j;
                    assert(cache_keys()[n] == (icon, color));
                    assert(cache.icons@.contains_key(packed_key(cache_keys()[n].0, cache_keys()[n].1)));
                }
                if cache.has(icon, color) {
                    let n = choose|n: int|
                        0 <= n < CACHE_ENTRIES && packed_key(icon, color) == #[trigger] packed_key(
                            cache_keys()[n].0,
                            cache_keys()[n].1,
                        );
                    lemma_packed_key_injective((icon, color), cache_keys()[n]);
                }
            }
        }
        cache
    }

    /// The raster of `icon` in `color`. The set of icons and the palette are
    /// closed, so a key that is not cached is a programming error.
    pub fn get(&self, icon_type: IconType, color: Rgb) -> (r: &Vec<u8>)
        requires
            self.has(icon_type, color),
        ensures
            r@ == self.raster(icon_type, color),
    {
        let key = pack_key(icon_type, color);
        match self.icons.get(&key) {
            Some(r) => r,
            None => vstd::pervasive::unreached(),
        }
    }

    /// Side of the rasters in pixels.
    pub fn side(&self) -> (r: u32)
        ensures
            r == self.size(),
    {
        self.size
    }
}

} // verus!
