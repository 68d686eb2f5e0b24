use better_resource_monitor::theme::{get_text_color, theme_color};

#[test]
fn dark_theme_setting_asks_for_white_icons() {
    assert_eq!(get_text_color(Some("true\n"), None), 255);
    assert_eq!(get_text_color(Some("true"), Some("XFCE")), 255);
    assert_eq!(get_text_color(Some("'true'"), Some("kde")), 255);
}

#[test]
fn light_desktops_ask_for_black_icons() {
    assert_eq!(get_text_color(Some("false\n"), Some("XFCE")), 0);
    assert_eq!(get_text_color(None, Some("KDE")), 0);
    assert_eq!(get_text_color(None, Some("ubuntu:Kde-Plasma")), 0);
    assert_eq!(get_text_color(Some(""), Some("Pantheon:Elementary")), 0);
    assert_eq!(get_text_color(Some("TRUE"), Some("xfce")), 0);
}

#[test]
fn everything_else_gets_white_icons() {
    assert_eq!(get_text_color(None, None), 255);
    assert_eq!(get_text_color(Some("false"), None), 255);
    assert_eq!(get_text_color(Some("false"), Some("GNOME")), 255);
    assert_eq!(get_text_color(None, Some("")), 255);
    assert_eq!(get_text_color(None, Some("xfc")), 255);
}

#[test]
fn theme_color_takes_the_desktop_as_it_is() {
    assert_eq!(theme_color(None, Some("xfce")), 0);
    assert_eq!(theme_color(None, Some("XFCE")), 255);
    assert_eq!(theme_color(Some("tru"), Some("my-kde")), 0);
    assert_eq!(theme_color(Some("it is true"), Some("my-kde")), 255);
}
