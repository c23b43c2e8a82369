use allio::color::Color;
use allio::config::Config;
use allio::input::{KeyCode, KeyEvent, KeyEventKind, ListState, MouseEvent, MouseEventKind, Rect};
use allio::modules::interface::InterfaceMode;
use allio::modules::projects::wallwatch::{
    fzf_match_update, palette_filler, parse_hex, sort_by_filename, sort_by_name, LaunchRequest,
    RegistryData, RegistryState, WallpaperItem, Wallwatch, WallwatchView,
};

fn item(filename: &str, path: &str) -> WallpaperItem {
    WallpaperItem {
        filename: filename.to_string(),
        relative_path: path.to_string(),
        seed_argb: "0xff336699".to_string(),
    }
}

fn registry(is_dark: bool, names: &[(&str, &str, &str)]) -> RegistryData {
    RegistryData {
        state: RegistryState { is_dark, variant: "tonal".to_string() },
        wallpapers: names
            .iter()
            .map(|(k, f, p)| (k.to_string(), item(f, p)))
            .collect(),
    }
}

fn sample() -> Wallwatch {
    let reg = registry(
        true,
        &[
            ("k3", "zebra.png", "animals/Zebra.png"),
            ("k1", "forest.jpg", "nature/Forest.jpg"),
            ("k2", "lake.png", "nature/lake.png"),
        ],
    );
    Wallwatch::new(Some(vec![reg]), None)
}

fn config() -> Config {
    Config {
        wallpaper_dir: "/walls".to_string(),
        scheme_path: "/s.json".to_string(),
        registry_path: "/r.json".to_string(),
        daemon_socket: "/tmp/scoutd/scoutd.sock".to_string(),
        variant: "  vibrant ".to_string(),
        wallwbin: " /usr/bin/wallwatch".to_string(),
        mouse_on: false,
    }
}

fn key(code: KeyCode) -> KeyEvent {
    KeyEvent::press(code)
}

fn names(w: &Wallwatch) -> Vec<String> {
    w.states.wallpapers.iter().map(|(_, i)| i.filename.clone()).collect()
}

#[test]
fn new_sorts_wallpapers_and_selects_first() {
    let w = sample();
    assert_eq!(names(&w), vec!["forest.jpg", "lake.png", "zebra.png"]);
    assert_eq!(w.states.wallpaper_list_state.selected(), Some(0));
    assert_eq!(w.states.palette_state.selected(), Some(0));
    assert_eq!(w.states.fzf_list_state.selected(), Some(0));
    assert!(w.states.is_dark);
    assert_eq!(w.states.variant_override.as_deref(), Some("tonal"));
    assert_eq!(w.states.current_view, WallwatchView::Overview);
    assert_eq!(w.name, "Wallwatch");
}

#[test]
fn new_prefers_the_list_and_its_first_registry() {
    let a = registry(false, &[("a", "a.png", "a.png")]);
    let b = registry(true, &[("b", "b.png", "b.png")]);
    let single = registry(true, &[("s", "s.png", "s.png")]);
    let w = Wallwatch::new(Some(vec![a, b]), Some(single));
    assert_eq!(names(&w), vec!["a.png"]);
    assert!(!w.states.is_dark);
    let single = registry(false, &[("s", "s.png", "s.png")]);
    let w = Wallwatch::new(None, Some(single));
    assert_eq!(names(&w), vec!["s.png"]);
    assert!(!w.states.is_dark);
}

#[test]
fn new_without_registry_is_empty_and_dark() {
    let w = Wallwatch::new(None, None);
    assert!(w.states.wallpapers.is_empty());
    assert!(w.states.is_dark);
    assert_eq!(w.states.variant_override, None);
    assert_eq!(w.states.wallpaper_list_state.selected(), None);
    let w = Wallwatch::new(Some(vec![]), Some(registry(false, &[("s", "s", "s")])));
    assert!(w.states.wallpapers.is_empty());
    assert!(w.states.is_dark);
}

#[test]
fn sort_keeps_equal_names_in_order() {
    let v = vec![
        ("x".to_string(), item("b", "1")),
        ("y".to_string(), item("a", "2")),
        ("z".to_string(), item("b", "3")),
    ];
    let s = sort_by_filename(v);
    let keys: Vec<&str> = s.iter().map(|(k, _)| k.as_str()).collect();
    assert_eq!(keys, vec!["y", "x", "z"]);
    let colors = vec![
        ("primary".to_string(), "#1".to_string()),
        ("background".to_string(), "#2".to_string()),
        ("error".to_string(), "#3".to_string()),
    ];
    let sorted: Vec<String> = sort_by_name(colors).into_iter().map(|(k, _)| k).collect();
    assert_eq!(sorted, vec!["background", "error", "primary"]);
    let dup = vec![
        ("b".to_string(), 1u8),
        ("a".to_string(), 2u8),
        ("b".to_string(), 3u8),
        ("a".to_string(), 4u8),
    ];
    let values: Vec<u8> = sort_by_name(dup).into_iter().map(|(_, v)| v).collect();
    assert_eq!(values, vec![2, 4, 1, 3]);
}

#[test]
fn scroll_wraps_both_ways() {
    let mut w = sample();
    w.scroll_list(false);
    assert_eq!(w.states.wallpaper_list_state.selected(), Some(2));
    w.scroll_list(true);
    assert_eq!(w.states.wallpaper_list_state.selected(), Some(0));
    let mut e = Wallwatch::new(None, None);
    e.scroll_list(true);
    assert_eq!(e.states.wallpaper_list_state.selected(), None);
}

#[test]
fn scroll_round_trip_restores_selection() {
    let mut w = sample();
    w.states.wallpaper_list_state.select(Some(1));
    w.scroll_list(true);
    w.scroll_list(false);
    assert_eq!(w.states.wallpaper_list_state.selected(), Some(1));
}

#[test]
fn down_key_moves_and_applies_the_wallpaper() {
    let mut w = sample();
    let mut mode = InterfaceMode::Normal;
    let r = w.handle_input(key(KeyCode::Down), &mut mode, &config()).unwrap();
    assert_eq!(w.states.wallpaper_list_state.selected(), Some(1));
    assert_eq!(r.program, "/usr/bin/wallwatch");
    assert_eq!(r.args, vec!["-w", "/walls/nature/lake.png", "-V", "vibrant"]);
    assert_eq!(mode, InterfaceMode::Normal);
}

#[test]
fn light_scheme_adds_the_light_flag() {
    let mut w = sample();
    let mut mode = InterfaceMode::Normal;
    let r = w.handle_input(key(KeyCode::Char('t')), &mut mode, &config()).unwrap();
    assert!(!w.states.is_dark);
    assert_eq!(r.args, vec!["-w", "/walls/nature/Forest.jpg", "-V", "vibrant", "-l"]);
}

#[test]
fn toggling_dark_twice_restores() {
    let mut w = sample();
    let mut mode = InterfaceMode::Normal;
    w.handle_input(key(KeyCode::Char('t')), &mut mode, &config());
    w.handle_input(key(KeyCode::Char('t')), &mut mode, &config());
    assert!(w.states.is_dark);
}

#[test]
fn palette_view_does_not_move_or_apply() {
    let mut w = sample();
    let mut mode = InterfaceMode::Normal;
    assert!(w.handle_input(key(KeyCode::Char('p')), &mut mode, &config()).is_none());
    assert_eq!(w.states.current_view, WallwatchView::Palette);
    assert!(w.handle_input(key(KeyCode::Char('j')), &mut mode, &config()).is_none());
    assert_eq!(w.states.wallpaper_list_state.selected(), Some(0));
    assert!(w.handle_input(key(KeyCode::Char('t')), &mut mode, &config()).is_none());
    w.handle_input(key(KeyCode::Char('1')), &mut mode, &config());
    assert_eq!(w.states.current_view, WallwatchView::Overview);
}

#[test]
fn fuzzy_finder_filters_by_lowercased_path() {
    let mut w = sample();
    let mut mode = InterfaceMode::Normal;
    w.handle_input(key(KeyCode::Char('/')), &mut mode, &config());
    assert!(w.states.show_fzf);
    assert_eq!(w.states.fzf_matches.len(), 3);
    for c in "FOR".chars() {
        w.handle_input(key(KeyCode::Char(c)), &mut mode, &config());
    }
    assert_eq!(w.states.fzf_query, "FOR");
    assert_eq!(w.states.fzf_matches.len(), 1);
    assert_eq!(w.states.fzf_matches[0].0, 0);
    assert_eq!(w.states.fzf_matches[0].1, "k1");
    w.handle_input(key(KeyCode::Char('x')), &mut mode, &config());
    assert!(w.states.fzf_matches.is_empty());
    assert_eq!(w.states.fzf_list_state.selected(), None);
    w.handle_input(key(KeyCode::Backspace), &mut mode, &config());
    assert_eq!(w.states.fzf_query, "FOR");
    assert_eq!(w.states.fzf_matches.len(), 1);
    assert_eq!(w.states.fzf_list_state.selected(), Some(0));
}

#[test]
fn fuzzy_finder_enter_applies_the_pick() {
    let mut w = sample();
    let mut mode = InterfaceMode::Insert;
    w.states.show_fzf = true;
    for c in "nature".chars() {
        w.handle_input(key(KeyCode::Char(c)), &mut mode, &config());
    }
    assert_eq!(w.states.fzf_matches.len(), 2);
    w.handle_input(key(KeyCode::Down), &mut mode, &config());
    assert_eq!(w.states.fzf_list_state.selected(), Some(1));
    w.handle_input(key(KeyCode::Down), &mut mode, &config());
    assert_eq!(w.states.fzf_list_state.selected(), Some(0));
    w.handle_input(key(KeyCode::Up), &mut mode, &config());
    assert_eq!(w.states.fzf_list_state.selected(), Some(1));
    let r = w.handle_input(key(KeyCode::Enter), &mut mode, &config()).unwrap();
    assert_eq!(r.args[1], "/walls/nature/lake.png");
    assert_eq!(w.states.wallpaper_list_state.selected(), Some(1));
    assert!(!w.states.show_fzf);
    assert_eq!(mode, InterfaceMode::Normal);
}

#[test]
fn fuzzy_finder_esc_closes() {
    let mut w = sample();
    let mut mode = InterfaceMode::Insert;
    w.states.show_fzf = true;
    assert!(w.handle_input(key(KeyCode::Esc), &mut mode, &config()).is_none());
    assert!(!w.states.show_fzf);
    assert_eq!(mode, InterfaceMode::Insert);
}

#[test]
fn fzf_update_clamps_the_selection() {
    let mut w = sample();
    w.states.fzf_list_state.select(Some(7));
    fzf_match_update(&mut w.states);
    assert_eq!(w.states.fzf_list_state.selected(), Some(2));
}

#[test]
fn insert_mode_edits_the_text_field() {
    let mut w = sample();
    let mut mode = InterfaceMode::Insert;
    w.handle_input(key(KeyCode::Char('h')), &mut mode, &config());
    w.handle_input(key(KeyCode::Char('i')), &mut mode, &config());
    assert_eq!(w.states.input_buffer, "hi");
    assert_eq!(w.states.cursor_position, 2);
    w.handle_input(key(KeyCode::Backspace), &mut mode, &config());
    assert_eq!(w.states.input_buffer, "h");
    assert_eq!(w.states.cursor_position, 1);
    w.handle_input(key(KeyCode::Enter), &mut mode, &config());
    assert_eq!(w.states.input_buffer, "");
    assert_eq!(w.states.cursor_position, 0);
}

#[test]
fn typing_then_erasing_restores_the_field() {
    let mut w = sample();
    w.states.input_buffer = "ab".to_string();
    w.states.cursor_position = 2;
    let mut mode = InterfaceMode::Insert;
    w.handle_input(key(KeyCode::Char('z')), &mut mode, &config());
    w.handle_input(key(KeyCode::Backspace), &mut mode, &config());
    assert_eq!(w.states.input_buffer, "ab");
    assert_eq!(w.states.cursor_position, 2);
}

fn placed() -> Wallwatch {
    let mut w = sample();
    w.set_areas(
        Rect { x: 0, y: 0, width: 80, height: 3 },
        Rect { x: 0, y: 3, width: 56, height: 14 },
        Rect { x: 56, y: 3, width: 24, height: 20 },
        Rect { x: 0, y: 17, width: 56, height: 6 },
    );
    w
}

#[test]
fn clicking_a_wallpaper_applies_it() {
    let mut w = placed();
    w.states.current_view = WallwatchView::Palette;
    let m = MouseEvent { column: 5, row: 6, kind: MouseEventKind::LeftDown };
    let r = w.handle_mouse(m, InterfaceMode::Normal, &config()).unwrap();
    assert_eq!(w.states.wallpaper_list_state.selected(), Some(2));
    assert_eq!(r.args[1], "/walls/animals/Zebra.png");
    assert_eq!(w.states.current_view, WallwatchView::Overview);
    let past = MouseEvent { column: 5, row: 10, kind: MouseEventKind::LeftDown };
    assert!(w.handle_mouse(past, InterfaceMode::Normal, &config()).is_none());
    assert_eq!(w.states.wallpaper_list_state.selected(), Some(2));
}

#[test]
fn wheel_scrolls_lists() {
    let mut w = placed();
    let down = MouseEvent { column: 5, row: 6, kind: MouseEventKind::ScrollDown };
    w.handle_mouse(down, InterfaceMode::Normal, &config());
    assert_eq!(w.states.wallpaper_list_state.selected(), Some(1));
    let up = MouseEvent { column: 60, row: 6, kind: MouseEventKind::ScrollUp };
    w.handle_mouse(up, InterfaceMode::Normal, &config());
    assert_eq!(w.states.palette_state.selected(), Some(0));
    let pdown = MouseEvent { column: 60, row: 6, kind: MouseEventKind::ScrollDown };
    w.handle_mouse(pdown, InterfaceMode::Normal, &config());
    assert_eq!(w.states.palette_state.selected(), Some(1));
}

#[test]
fn clicking_the_text_line_places_the_cursor() {
    let mut w = placed();
    w.states.input_buffer = "hello".to_string();
    let m = MouseEvent { column: 17, row: 18, kind: MouseEventKind::LeftDown };
    w.handle_mouse(m, InterfaceMode::Insert, &config());
    assert_eq!(w.states.cursor_position, 2);
    let far = MouseEvent { column: 40, row: 18, kind: MouseEventKind::LeftDown };
    w.handle_mouse(far, InterfaceMode::Insert, &config());
    assert_eq!(w.states.cursor_position, 5);
}

#[test]
fn trigger_out_of_range_is_none() {
    let w = sample();
    assert!(w.wallwatch_trigger(3, &config()).is_none());
    let r: LaunchRequest = w.wallwatch_trigger(0, &config()).unwrap();
    assert_eq!(r.args[1], "/walls/nature/Forest.jpg");
}

#[test]
fn palette_colors_fall_back_to_white() {
    assert_eq!(parse_hex("#336699"), Color::Rgb(0x33, 0x66, 0x99));
    assert_eq!(parse_hex("blue"), Color::White);
    assert_eq!(palette_filler(10, 40), 19);
    assert_eq!(palette_filler(40, 40), 0);
}

#[test]
fn non_press_keys_still_reach_the_module() {
    let mut w = sample();
    let mut mode = InterfaceMode::Normal;
    let k = KeyEvent { code: KeyCode::Char('t'), kind: KeyEventKind::Other };
    w.handle_input(k, &mut mode, &config());
    assert!(!w.states.is_dark);
    let _ = ListState::default();
}
