use allio::input::{KeyCode, KeyEvent, MouseEvent, MouseEventKind, Rect};
use allio::json::{parse_json, JsonValue};
use allio::modules::get_all_modules;
use allio::modules::interface::{Interaction, Interface, InterfaceMode};
use allio::modules::projects::scoutd::Scoutd;
use allio::modules::projects::wallwatch::{
    active_variant, fzf_cursor, fzf_highlight, fzf_match_update, fzf_panes, palette_panes, seed_rgb,
    seed_rgb_checked, wallpaper_filler, RegistryData, RegistryState, WallpaperItem, Wallwatch,
};
use allio::text::{find_str, join_path, replace_str, to_lowercase, to_uppercase, trim};
use allio::theme::Theme;
use allio::color::Color;
use allio::config::Config;

fn detail_item(filename: &str, path: &str) -> WallpaperItem {
    WallpaperItem { filename: filename.to_string(), relative_path: path.to_string(), seed_argb: "0xff112233".to_string() }
}

fn detail_sample() -> Wallwatch {
    let reg = RegistryData {
        state: RegistryState { is_dark: true, variant: "tonal".to_string() },
        wallpapers: vec![
            ("k1".to_string(), detail_item("forest.jpg", "nature/Forest.jpg")),
            ("k2".to_string(), detail_item("lake.png", "nature/lake.png")),
            ("k3".to_string(), detail_item("zebra.png", "animals/Zebra.png")),
        ],
    };
    Wallwatch::new(Some(vec![reg]), None)
}

fn name_list(v: &[&str]) -> Vec<String> {
    v.iter().map(|s| s.to_string()).collect()
}

#[test]
fn header_flags_follow_their_own_process() {
    let w = detail_sample();
    let d = w.definition_from(&name_list(&["scoutd", "bash"]), &name_list(&["bash"]));
    assert!(d.git_enabled && d.daemon_running && !d.process);
    let d = w.definition_from(&name_list(&["bash"]), &name_list(&["wallwatch"]));
    assert!(!d.daemon_running && d.process);
    assert_eq!(d.name, "Wallwatch");
    let s = Scoutd::new();
    let d = s.definition_from(&name_list(&["scoutd"]), &name_list(&["wallwatch"]));
    assert!(d.daemon_running && !d.process);
    assert_eq!(d.description, "Scout-d (daemon) for IPC communication via DBus");
}

#[test]
fn scrolling_an_empty_list_at_the_top_index_changes_nothing() {
    let mut w = Wallwatch::new(None, None);
    w.states.wallpaper_list_state.select(Some(usize::MAX));
    w.scroll_list(true);
    assert_eq!(w.states.wallpaper_list_state.selected(), Some(usize::MAX));
    w.states.wallpaper_list_area = Rect { x: 0, y: 0, width: 10, height: 10 };
    let m = MouseEvent { column: 2, row: 2, kind: MouseEventKind::ScrollDown };
    assert!(w.accepts_mouse(m));
}

#[test]
fn theme_from_document_reads_the_colors_object() {
    let doc = parse_json(r##"{"colors": {"primary": "#102030"}}"##).unwrap();
    let t = Theme::from_document(&doc);
    assert_eq!(t.primary, Color::Rgb(0x10, 0x20, 0x30));
    assert_eq!(t.border_active, t.primary);
    assert_eq!(t.bg, Color::Rgb(0x0D, 0x14, 0x1B));
    let wrapped = parse_json(r##"[{"colors": {"primary": "#102030"}}]"##).unwrap();
    assert!(Theme::from_document(&wrapped) == t);
    assert!(Theme::from_document(&JsonValue::Null) == Theme::from_json(""));
}

#[test]
fn string_helpers_follow_std() {
    assert_eq!(trim(" \t ab c\u{3000}\n"), "ab c");
    assert_eq!(join_path("/walls", "a/b.png"), "/walls/a/b.png");
    assert_eq!(join_path("/walls/", "b.png"), "/walls/b.png");
    assert_eq!(join_path("", "b.png"), "b.png");
    assert_eq!(join_path("/walls", "/abs/b.png"), "/abs/b.png");
    assert_eq!(to_lowercase(""), "");
    assert_eq!(to_lowercase("AbC-1"), "abc-1");
    assert_eq!(to_uppercase("0xff[a]"), "0XFF[A]");
    assert_eq!(replace_str("0X0X12", "0X", ""), "12");
    assert_eq!(replace_str("aaa", "aa", "b"), "ba");
    assert_eq!(find_str("abcabc", "ca"), Some(2));
    assert_eq!(find_str("abc", "x"), None);
    assert_eq!(find_str("abc", ""), Some(0));
}

#[test]
fn wallpaper_row_details() {
    assert_eq!(wallpaper_filler(40, 10), 16);
    assert_eq!(wallpaper_filler(10, 10), 0);
    let reg = Some("tonal".to_string());
    assert_eq!(active_variant("vibrant", &reg), "tonal");
    assert_eq!(active_variant("vibrant", &None), "vibrant");
    assert_eq!(active_variant("neutral", &reg), "neutral");
    assert_eq!(seed_rgb("0xff112233"), (0x11, 0x22, 0x33));
    assert_eq!(seed_rgb("0xff4455660]"), (0x44, 0x55, 0x66));
    assert_eq!(seed_rgb("abc"), (255, 255, 255));
    assert_eq!(seed_rgb("0xffzz2233"), (255, 255, 255));
    assert_eq!(seed_rgb_checked("0xff112233"), Some((0x11, 0x22, 0x33)));
    assert_eq!(seed_rgb_checked("ab\u{e9}cdef"), Some((255, 255, 255)));
    assert_eq!(seed_rgb_checked("a\u{e9}12345"), None);
}

#[test]
fn fuzzy_finder_details() {
    assert_eq!(fzf_highlight("nature/Forest.jpg", "FOR"), Some((7, 10)));
    assert_eq!(fzf_highlight("nature/Forest.jpg", ""), None);
    assert_eq!(fzf_highlight("nature/Forest.jpg", "xyz"), None);
    assert_eq!(fzf_cursor(Rect { x: 5, y: 7, width: 20, height: 3 }, 4), (12, 8));
    let area = Rect { x: 0, y: 0, width: 40, height: 20 };
    let (results, prompt) = fzf_panes(area);
    assert_eq!(prompt, Rect { x: 0, y: 17, width: 40, height: 3 });
    assert_eq!(results, Rect { x: 0, y: 0, width: 40, height: 17 });
    let (list, info) = palette_panes(area);
    assert_eq!(list, Rect { x: 0, y: 0, width: 40, height: 16 });
    assert_eq!(info, Rect { x: 0, y: 16, width: 40, height: 4 });
}

#[test]
fn fuzzy_finder_laws_on_examples() {
    let mut w = detail_sample();
    fzf_match_update(&mut w.states);
    assert_eq!(w.states.fzf_matches.len(), 3);
    assert_eq!(w.states.fzf_matches.iter().map(|m| m.0).collect::<Vec<_>>(), vec![0, 1, 2]);
    w.states.fzf_query = "na".to_string();
    fzf_match_update(&mut w.states);
    let wide: Vec<usize> = w.states.fzf_matches.iter().map(|m| m.0).collect();
    w.states.fzf_query = "nat".to_string();
    fzf_match_update(&mut w.states);
    let narrow: Vec<usize> = w.states.fzf_matches.iter().map(|m| m.0).collect();
    assert!(narrow.iter().all(|i| wide.contains(i)));
    w.states.fzf_query = "NAT".to_string();
    fzf_match_update(&mut w.states);
    let upper: Vec<usize> = w.states.fzf_matches.iter().map(|m| m.0).collect();
    assert_eq!(upper, narrow);
}

fn detail_dashboard() -> Interface {
    Interface::new(get_all_modules(detail_sample()), Theme::from_json(""))
}

fn hovered_items(i: &Interface) -> Vec<usize> {
    i.items.iter().enumerate().filter(|(_, it)| it.interaction != Interaction::Idle).map(|(k, _)| k).collect()
}

#[test]
fn navigation_keys_match_the_moves() {
    let cfg = Config::default("/home/u");
    let mut a = detail_dashboard();
    let mut b = detail_dashboard();
    a.handle_enter();
    b.event_handler(KeyEvent::press(KeyCode::Enter), &cfg);
    assert_eq!(a.visible_map, b.visible_map);
    assert_eq!(a.list_state.selected(), Some(0));
    assert!(a.items.iter().all(|it| it.interaction == Interaction::Idle));
    a.next();
    b.event_handler(KeyEvent::press(KeyCode::Char(' ')), &cfg);
    assert_eq!(a.list_state.selected(), b.list_state.selected());
    assert_eq!(hovered_items(&a), vec![0]);
    assert_eq!(hovered_items(&b), vec![0]);
    a.prev();
    b.event_handler(KeyEvent::press(KeyCode::Backspace), &cfg);
    assert_eq!(a.list_state.selected(), b.list_state.selected());
    assert_eq!(b.mode, InterfaceMode::Normal);
    assert!(hovered_items(&b).is_empty());
}

#[test]
fn click_is_hover_then_enter() {
    let cfg = Config::default("/home/u");
    let mut a = detail_dashboard();
    let mut b = detail_dashboard();
    let minor = Rect { x: 0, y: 0, width: 20, height: 10 };
    a.set_areas(minor, Rect { x: 20, y: 0, width: 20, height: 10 });
    b.set_areas(minor, Rect { x: 20, y: 0, width: 20, height: 10 });
    a.handle_hover(0);
    a.handle_enter();
    b.mouse_handler(MouseEvent { column: 2, row: 1, kind: MouseEventKind::LeftDown }, &cfg);
    assert_eq!(a.visible_map, b.visible_map);
    assert_eq!(a.list_state.selected(), b.list_state.selected());
    assert_eq!(hovered_items(&a), hovered_items(&b));
    let before = b.list_state;
    b.mouse_handler(MouseEvent { column: 2, row: 9, kind: MouseEventKind::LeftDown }, &cfg);
    assert_eq!(b.list_state, before);
}

#[test]
fn hex_text_reads_back() {
    for (r, g, b) in [(0u8, 0u8, 0u8), (10, 200, 3), (255, 255, 255)] {
        let text = format!("#{:02X}{:02X}{:02X}", r, g, b);
        assert_eq!(allio::color::hex_rgb(&text), Some((r, g, b)));
    }
}
