use better_resource_monitor::color::{ALERT_COLOR, BLACK, WHITE};
use better_resource_monitor::icons::{color_hex, tinted_svg, unpremultiply, IconCache, CACHE_ENTRIES};
use better_resource_monitor::layout::IconType;
use better_resource_monitor::tray_render::TrayRenderer;

#[test]
fn color_hex_writes_lower_case_pairs() {
    assert_eq!(color_hex((255, 255, 255)), "#ffffff");
    assert_eq!(color_hex((0, 0, 0)), "#000000");
    assert_eq!(color_hex((209, 71, 21)), "#d14715");
    assert_eq!(color_hex((1, 10, 160)), "#010aa0");
}

#[test]
fn tinted_svg_replaces_the_token_and_forces_a_fill() {
    let svg = r#"<svg width="1"><path fill="currentColor"/><path stroke="currentColor"/></svg>"#;
    assert_eq!(
        tinted_svg(svg, (209, 71, 21)),
        r##"<svg fill="#d14715" width="1"><path fill="#d14715"/><path stroke="#d14715"/></svg>"##
    );
}

#[test]
fn tinted_svg_leaves_other_text_alone() {
    assert_eq!(tinted_svg("", (1, 2, 3)), "");
    assert_eq!(tinted_svg("<svg/>", (1, 2, 3)), "<svg/>");
    assert_eq!(tinted_svg("currentcolor <SVG >", (1, 2, 3)), "currentcolor <SVG >");
    assert_eq!(
        tinted_svg("<svg <svg currentColorcurrentColor", (0, 0, 0)),
        "<svg fill=\"#000000\" <svg fill=\"#000000\" #000000#000000"
    );
}

#[test]
fn unpremultiply_divides_colour_by_alpha() {
    let mut pixels = vec![100, 50, 25, 128, 200, 0, 7, 100, 9, 8, 7, 0, 1, 2, 3, 255, 64, 64];
    unpremultiply(&mut pixels);
    assert_eq!(pixels, vec![199, 99, 49, 128, 255, 0, 17, 100, 9, 8, 7, 0, 1, 2, 3, 255, 64, 64]);
}

#[test]
fn unpremultiply_handles_short_and_empty_rasters() {
    let mut empty: Vec<u8> = Vec::new();
    unpremultiply(&mut empty);
    assert!(empty.is_empty());
    let mut short = vec![10, 20, 30];
    unpremultiply(&mut short);
    assert_eq!(short, vec![10, 20, 30]);
    let mut one = vec![1, 1, 1, 1];
    unpremultiply(&mut one);
    assert_eq!(one, vec![255, 255, 255, 1]);
}

#[test]
fn cache_keys_run_icon_by_icon_through_the_palette() {
    let keys = IconCache::keys();
    assert_eq!(keys.len(), CACHE_ENTRIES);
    assert_eq!(keys.len(), 15);
    let icons = [IconType::Cpu, IconType::Memory, IconType::Gpu, IconType::ArrowDown, IconType::ArrowUp];
    let colors = [WHITE, BLACK, ALERT_COLOR];
    for (k, key) in keys.iter().enumerate() {
        assert_eq!(*key, (icons[k / 3], colors[k % 3]));
    }
}

fn numbered_rasters() -> Vec<Vec<u8>> {
    (0..15u8).map(|k| vec![k, k, k, 255, 40, 20, 10, 80]).collect()
}

#[test]
fn cache_files_each_raster_under_its_key_in_straight_alpha() {
    let cache = IconCache::new(2, numbered_rasters());
    assert_eq!(cache.side(), 2);
    for (k, (icon, color)) in IconCache::keys().into_iter().enumerate() {
        let k = k as u8;
        assert_eq!(cache.get(icon, color), &vec![k, k, k, 255, 127, 63, 31, 80]);
    }
    assert_eq!(cache.get(IconType::Gpu, ALERT_COLOR)[0], 8);
    assert_eq!(cache.get(IconType::ArrowUp, WHITE)[0], 12);
}

#[test]
fn renderer_keeps_the_first_cache_of_a_size() {
    let mut renderer = TrayRenderer::new();
    assert!(renderer.needs_icons(2));
    renderer.icon_cache_mut(2, numbered_rasters());
    assert!(!renderer.needs_icons(2));
    assert!(renderer.needs_icons(3));
    let other: Vec<Vec<u8>> = (0..15u8).map(|k| vec![100 + k, 0, 0, 255]).collect();
    renderer.icon_cache_mut(2, other.clone());
    assert_eq!(renderer.icon_cache(2).get(IconType::Cpu, BLACK)[0], 1);
    renderer.icon_cache_mut(3, other);
    assert_eq!(renderer.icon_cache(3).get(IconType::Cpu, BLACK)[0], 101);
    assert_eq!(renderer.icon_cache(3).side(), 3);
    assert_eq!(renderer.icon_cache(2).get(IconType::Cpu, BLACK)[0], 1);
}
