use allio::color::{hex_rgb, Color};
use allio::config::{def_mouse, def_socket, def_variant, def_walldir, def_wallwbin, Config};
use allio::icons::IconSet;
use allio::json::{parse_json, JsonValue};
use allio::text::{contains_str, str_eq, str_le, to_lowercase};
use allio::theme::Theme;

#[test]
fn hex_rgb_reads_hash_prefixed_colors() {
    assert_eq!(hex_rgb("#FF8000"), Some((255, 128, 0)));
    assert_eq!(hex_rgb("#0D141B"), Some((0x0d, 0x14, 0x1b)));
    assert_eq!(hex_rgb("9bcaff"), Some((0x9b, 0xca, 0xff)));
}

#[test]
fn hex_rgb_drops_every_leading_hash() {
    assert_eq!(hex_rgb("##abc"), Some((0x00, 0x0a, 0xbc)));
    assert_eq!(hex_rgb("###"), None);
}

#[test]
fn hex_rgb_follows_from_str_radix() {
    assert_eq!(hex_rgb("+ff"), Some((0, 0, 255)));
    assert_eq!(hex_rgb("+"), None);
    assert_eq!(hex_rgb("-ff"), None);
    assert_eq!(hex_rgb(""), None);
    assert_eq!(hex_rgb("#GG0000"), None);
    assert_eq!(hex_rgb("# 112233"), None);
    assert_eq!(hex_rgb("0000000FF"), Some((0, 0, 255)));
    assert_eq!(hex_rgb("FFFFFFFF"), Some((255, 255, 255)));
    assert_eq!(hex_rgb("1FFFFFFFF"), None);
}

#[test]
fn theme_parse_hex_resets_on_bad_input() {
    assert_eq!(Theme::parse_hex("#102030"), Color::Rgb(0x10, 0x20, 0x30));
    assert_eq!(Theme::parse_hex("nope"), Color::Reset);
}

#[test]
fn theme_reads_colors_object() {
    let text = r##"{"colors": {"background": "#010203", "primary": "#0a0b0c", "error": 17, "success": "zz"}}"##;
    let t = Theme::from_json(text);
    assert_eq!(t.bg, Color::Rgb(1, 2, 3));
    assert_eq!(t.primary, Color::Rgb(10, 11, 12));
    assert_eq!(t.border_active, Color::Rgb(10, 11, 12));
    // a color that is not a string falls back to the default
    assert_eq!(t.error, Color::Rgb(0xfb, 0xb3, 0xbc));
    // a string that is not hex reads as Reset
    assert_eq!(t.success, Color::Reset);
    assert_eq!(t.fg, Color::Rgb(0xdc, 0xe3, 0xee));
}

#[test]
fn theme_reads_first_element_of_an_array() {
    let text = r##"[{"colors": {"background": "#111111"}}, {"colors": {"background": "#222222"}}]"##;
    let t = Theme::from_json(text);
    assert_eq!(t.bg, Color::Rgb(0x11, 0x11, 0x11));
}

#[test]
fn theme_falls_back_on_unreadable_text() {
    let t = Theme::from_json("");
    assert_eq!(t.bg, Color::Rgb(0x0d, 0x14, 0x1b));
    assert_eq!(t.fg, Color::Rgb(0xdc, 0xe3, 0xee));
    assert_eq!(t.surface, Color::Rgb(0x19, 0x20, 0x28));
    assert_eq!(t.border_inactive, Color::Rgb(0x3f, 0x48, 0x53));
    assert_eq!(t.border_active, Color::Rgb(0x9b, 0xca, 0xff));
    assert_eq!(t.primary, Color::Rgb(0x9b, 0xca, 0xff));
    assert_eq!(t.secondary, Color::Rgb(0xb8, 0xc6, 0xea));
    assert_eq!(t.text, Color::Rgb(0xbe, 0xc7, 0xd5));
    assert_eq!(t.dim, Color::Rgb(0x89, 0x91, 0x9e));
    assert_eq!(t.highlight, Color::Rgb(0x00, 0x4a, 0x7a));
    assert_eq!(t.selection, Color::Rgb(0x3f, 0x48, 0x53));
    assert_eq!(t.brand, Color::Rgb(0xa0, 0xcb, 0xf4));
    assert_eq!(t.error, Color::Rgb(0xfb, 0xb3, 0xbc));
    assert_eq!(t.success, Color::Rgb(0x67, 0xdb, 0xb3));
    assert_eq!(Theme::from_json("{not json"), t);
    assert_eq!(Theme::from_json("{\"other\": 1}"), t);
}

#[test]
fn theme_refresh_replaces_the_theme() {
    let mut t = Theme::from_json("");
    t.theme_refresh(r##"{"colors": {"brand": "#000001"}}"##);
    assert_eq!(t.brand, Color::Rgb(0, 0, 1));
    assert_eq!(t.bg, Color::Rgb(0x0d, 0x14, 0x1b));
}

#[test]
fn json_members_and_elements() {
    let doc = parse_json(r#"{"a": [1, "x", null], "b": true}"#).unwrap();
    assert!(!doc.is_array());
    let a = doc.member("a").unwrap();
    assert!(a.is_array());
    assert_eq!(a.element(1).unwrap().as_str(), Some("x"));
    assert!(a.element(3).is_none());
    assert!(doc.member("c").is_none());
    assert!(matches!(doc.member("b"), Some(JsonValue::Bool(true))));
    assert!(parse_json("[1,").is_none());
}

#[test]
fn config_defaults() {
    assert_eq!(def_variant(), "vibrant");
    assert_eq!(def_wallwbin(), "/usr/bin/wallwatch");
    assert!(!def_mouse());
    assert_eq!(def_walldir("/home/u"), "/home/u/.local/share/wallpapers");
    assert_eq!(def_socket("/home/u"), "/tmp/scoutd/scoutd.sock");
    let c = Config::default("/home/u");
    assert_eq!(c.scheme_path, "/home/u/.local/state/scheme.json");
    assert_eq!(c.registry_path, "/home/u/.cache/wallwatch/wallcache/registry.json");
    assert_eq!(c.daemon_socket, "/tmp/scoutd/scoutd.sock");
    assert!(!c.mouse_on);
}

#[test]
fn text_helpers() {
    assert!(contains_str("wallpapers/Forest.png", "forest") == false);
    assert!(contains_str("wallpapers/forest.png", "forest"));
    assert!(contains_str("abc", ""));
    assert!(!contains_str("ab", "abc"));
    assert!(str_le("abc", "abd"));
    assert!(str_le("ab", "abc"));
    assert!(!str_le("b", "abc"));
    assert!(str_le("same", "same"));
    assert!(str_eq("x", "x") && !str_eq("x", "y"));
    assert_eq!(to_lowercase("ForEST"), "forest");
}

#[test]
fn icon_set_glyphs() {
    let icons = IconSet::icons();
    assert_eq!(icons.star, "\u{f04ce}");
    assert_eq!(icons.error, "\u{f015a}");
}
