//! Rendering engine for a compact, multi-segment status icon.
//!
//! The crate lays out fixed-width segments (an icon glyph and a numeric
//! value each), composites cached icon rasters and glyph coverage masks onto
//! an RGBA8 canvas, and decides when a fresh frame is worth drawing. All
//! fractional quantities are fixed-point integers in thousandths.

pub mod blend;
pub mod canvas;
pub mod color;
pub mod compose;
pub mod gpu;
pub mod icons;
pub mod layout;
pub mod monitor;
pub mod percent;
pub mod redraw;
pub mod sizing;
pub mod speed;
pub mod strings;
pub mod text;
pub mod theme;
pub mod tray_render;
