use better_resource_monitor::blend::blend_over;
use better_resource_monitor::canvas::Canvas;
use better_resource_monitor::color::{parse_background, segment_color, ALERT_COLOR, BLACK, WHITE};
use better_resource_monitor::compose::{draw_icon, draw_mask, draw_text, GlyphMask};

fn blank(width: u32, height: u32) -> Canvas {
    Canvas::from_raw(width, height, vec![0u8; (width * height * 4) as usize]).expect("sized buffer")
}

#[test]
fn blend_over_transparent_destination() {
    assert_eq!(blend_over((0, 0, 0, 0), (255, 255, 255), 128), (255, 255, 255, 128));
    assert_eq!(blend_over((0, 0, 0, 0), (209, 71, 21), 255), (209, 71, 21, 255));
    assert_eq!(blend_over((0, 0, 0, 0), (209, 71, 21), 0), (0, 0, 0, 0));
    assert_eq!(blend_over((9, 9, 9, 0), (1, 2, 3), 0), (0, 0, 0, 0));
}

#[test]
fn blend_over_opaque_destination() {
    assert_eq!(blend_over((10, 20, 30, 255), (255, 255, 255), 128), (133, 138, 143, 255));
    assert_eq!(blend_over((10, 20, 30, 255), (255, 255, 255), 0), (10, 20, 30, 255));
    assert_eq!(blend_over((10, 20, 30, 255), (1, 2, 3), 255), (1, 2, 3, 255));
    assert_eq!(blend_over((0, 0, 0, 255), (255, 0, 0), 1), (1, 0, 0, 255));
}

#[test]
fn blend_over_translucent_destination() {
    // out_a = 100 + round(100 * 155 / 255) = 161;
    // red: 100 premultiplied source plus nothing of the destination.
    assert_eq!(blend_over((0, 0, 255, 100), (255, 0, 0), 100), (158, 0, 97, 161));
}

#[test]
fn segment_color_follows_alert_then_scheme() {
    assert_eq!(segment_color(true, true), ALERT_COLOR);
    assert_eq!(segment_color(true, false), ALERT_COLOR);
    assert_eq!(segment_color(false, true), WHITE);
    assert_eq!(segment_color(false, false), BLACK);
    assert_eq!(ALERT_COLOR, (209, 71, 21));
}

#[test]
fn canvas_wants_four_bytes_per_pixel() {
    assert!(Canvas::from_raw(2, 3, vec![0; 24]).is_some());
    assert!(Canvas::from_raw(2, 3, vec![0; 23]).is_none());
    assert!(Canvas::from_raw(2, 3, vec![0; 25]).is_none());
    assert!(Canvas::from_raw(0, 7, Vec::new()).is_some());
    assert!(Canvas::from_raw(u32::MAX, u32::MAX, Vec::new()).is_none());
    // A canvas without rows still needs a row that can be counted in bytes.
    let row_fits = (0x4000_0000u64 * 4) <= usize::MAX as u64;
    assert_eq!(Canvas::from_raw(0x4000_0000, 0, Vec::new()).is_some(), row_fits);
    assert!(Canvas::from_raw(0x3fff_ffff, 0, Vec::new()).is_some());
    let canvas = Canvas::from_raw(2, 3, (0..24).collect()).expect("sized buffer");
    assert_eq!(canvas.dimensions(), (2, 3));
    assert_eq!(canvas.get(1, 2), Some((20, 21, 22, 23)));
    assert_eq!(canvas.get(2, 0), None);
    assert_eq!(canvas.get(0, 3), None);
    assert_eq!(canvas.into_raw(), (0..24).collect::<Vec<u8>>());
}

#[test]
fn plot_writes_one_pixel_or_nothing() {
    let mut canvas = blank(3, 2);
    canvas.plot(1, 1, (1, 2, 3), 200, false);
    canvas.plot(-1, 0, (9, 9, 9), 255, false);
    canvas.plot(3, 0, (9, 9, 9), 255, false);
    canvas.plot(0, 2, (9, 9, 9), 255, false);
    canvas.plot(0, 0, (9, 9, 9), 0, false);
    canvas.plot(i64::MAX, i64::MIN, (9, 9, 9), 255, true);
    let mut expected = vec![0u8; 24];
    expected[16..20].copy_from_slice(&[1, 2, 3, 200]);
    assert_eq!(canvas.into_raw(), expected);
}

#[test]
fn plot_blends_when_asked() {
    let mut canvas = blank(1, 1);
    canvas.fill((10, 20, 30, 255));
    canvas.plot(0, 0, (255, 255, 255), 128, true);
    assert_eq!(canvas.get(0, 0), Some((133, 138, 143, 255)));
    canvas.plot(0, 0, (255, 255, 255), 128, false);
    assert_eq!(canvas.get(0, 0), Some((255, 255, 255, 128)));
}

#[test]
fn fill_paints_every_pixel() {
    let mut canvas = blank(3, 2);
    canvas.fill((1, 2, 3, 4));
    assert_eq!(canvas.into_raw(), [1u8, 2, 3, 4].repeat(6));
}

#[test]
fn draw_icon_places_and_clips() {
    // A 2 by 2 icon: red, transparent, green, blue.
    let icon = vec![255, 0, 0, 255, 9, 9, 9, 0, 0, 255, 0, 255, 0, 0, 255, 128];
    let mut canvas = blank(3, 2);
    draw_icon(&mut canvas, &icon, 2, 1, false);
    assert_eq!(canvas.get(0, 0), Some((0, 0, 0, 0)));
    assert_eq!(canvas.get(1, 0), Some((255, 0, 0, 255)));
    assert_eq!(canvas.get(2, 0), Some((0, 0, 0, 0)));
    assert_eq!(canvas.get(1, 1), Some((0, 255, 0, 255)));
    assert_eq!(canvas.get(2, 1), Some((0, 0, 255, 128)));

    // One column further right the second column of the icon is cut off.
    let mut canvas = blank(3, 2);
    draw_icon(&mut canvas, &icon, 2, 2, false);
    assert_eq!(canvas.get(2, 0), Some((255, 0, 0, 255)));
    assert_eq!(canvas.get(2, 1), Some((0, 255, 0, 255)));
    assert_eq!(canvas.get(0, 1), Some((0, 0, 0, 0)));
    assert_eq!(canvas.get(1, 1), Some((0, 0, 0, 0)));

    // A canvas lower than the icon cuts off the second row.
    let mut canvas = blank(2, 1);
    draw_icon(&mut canvas, &icon, 2, 0, false);
    assert_eq!(canvas.into_raw(), vec![255, 0, 0, 255, 0, 0, 0, 0]);
}

#[test]
fn draw_icon_skips_pixels_that_the_raster_lacks() {
    let icon = vec![255, 0, 0, 255, 1, 2, 3];
    let mut canvas = blank(2, 2);
    draw_icon(&mut canvas, &icon, 2, 0, false);
    let mut expected = vec![0u8; 16];
    expected[0..4].copy_from_slice(&[255, 0, 0, 255]);
    assert_eq!(canvas.into_raw(), expected);
    let mut canvas = blank(2, 2);
    draw_icon(&mut canvas, &Vec::new(), 2, 0, true);
    draw_icon(&mut canvas, &icon, 0, 0, true);
    assert_eq!(canvas.into_raw(), vec![0u8; 16]);
}

#[test]
fn draw_mask_offsets_and_clips() {
    let mask = GlyphMask { left: -1, top: 1, width: 3, height: 2, coverage: vec![10, 20, 30, 40, 50, 60] };
    let mut canvas = blank(2, 2);
    draw_mask(&mut canvas, &mask, 0, 0, (7, 8, 9), false);
    // Row 0 of the mask lands in row 1; its first column is left of the canvas.
    assert_eq!(canvas.get(0, 0), Some((0, 0, 0, 0)));
    assert_eq!(canvas.get(0, 1), Some((7, 8, 9, 20)));
    assert_eq!(canvas.get(1, 1), Some((7, 8, 9, 30)));
}

#[test]
fn draw_mask_ignores_missing_samples_and_zero_coverage() {
    let mask = GlyphMask { left: 0, top: 0, width: 2, height: 2, coverage: vec![0, 255, 77] };
    let mut canvas = blank(2, 2);
    canvas.fill((1, 1, 1, 255));
    draw_mask(&mut canvas, &mask, 0, 0, (200, 100, 0), true);
    assert_eq!(canvas.get(0, 0), Some((1, 1, 1, 255)));
    assert_eq!(canvas.get(1, 0), Some((200, 100, 0, 255)));
    assert_eq!(canvas.get(0, 1), Some((61, 31, 1, 255)));
    assert_eq!(canvas.get(1, 1), Some((1, 1, 1, 255)));
}

#[test]
fn draw_text_draws_glyphs_in_order() {
    let first = GlyphMask { left: 0, top: 0, width: 2, height: 1, coverage: vec![100, 100] };
    let second = GlyphMask { left: 1, top: 0, width: 2, height: 1, coverage: vec![200, 200] };
    let mut canvas = blank(3, 1);
    draw_text(&mut canvas, &vec![first, second], 0, 0, (5, 6, 7), false);
    // Where the glyphs overlap the later one wins.
    assert_eq!(canvas.into_raw(), vec![5, 6, 7, 100, 5, 6, 7, 200, 5, 6, 7, 200]);
}

#[test]
fn parse_background_reads_six_or_eight_digits() {
    assert_eq!(parse_background("#1a2b3c").map(|b| b.rgba), Some((0x1a, 0x2b, 0x3c, 255)));
    assert_eq!(parse_background("1A2B3C80").map(|b| b.rgba), Some((26, 43, 60, 128)));
    assert_eq!(parse_background("#00000000").map(|b| b.rgba), Some((0, 0, 0, 0)));
    assert_eq!(parse_background("ffFFff").map(|b| b.rgba), Some((255, 255, 255, 255)));
    assert_eq!(parse_background("#09afAF").map(|b| b.rgba), Some((9, 175, 175, 255)));
}

#[test]
fn parse_background_refuses_everything_else() {
    for text in [
        "", "#", "#12345", "#1234567", "#123456789", "12345g", "#12345G", "##12345", "#12 456", "+f+f+f",
        "transparent", "#\u{e9}12345", "12345\u{e9}", "#1234567\u{20ac}",
    ] {
        assert!(parse_background(text).is_none(), "{text}");
    }
}

#[test]
fn draw_mask_and_text_move_by_the_offset() {
    let mask = GlyphMask { left: -1, top: 1, width: 2, height: 1, coverage: vec![10, 20] };
    let mut canvas = blank(3, 3);
    draw_mask(&mut canvas, &mask, 2, -1, (7, 8, 9), false);
    assert_eq!(canvas.get(1, 0), Some((7, 8, 9, 10)));
    assert_eq!(canvas.get(2, 0), Some((7, 8, 9, 20)));
    assert_eq!(canvas.get(0, 0), Some((0, 0, 0, 0)));
    let mut canvas = blank(3, 3);
    draw_text(&mut canvas, &vec![mask.clone(), mask.clone()], 1, 1, (1, 1, 1), false);
    assert_eq!(canvas.get(0, 2), Some((1, 1, 1, 10)));
    assert_eq!(canvas.get(1, 2), Some((1, 1, 1, 20)));
    // Offsets beyond any canvas draw nothing.
    let mut canvas = blank(3, 3);
    draw_mask(&mut canvas, &mask, i64::MAX, i64::MIN, (7, 8, 9), false);
    draw_mask(&mut canvas, &mask, i64::MIN, i64::MAX, (7, 8, 9), true);
    draw_text(&mut canvas, &vec![mask], 1 << 40, 0, (7, 8, 9), false);
    assert_eq!(canvas.into_raw(), vec![0u8; 36]);
}
