use allio::color::hex_rgb;
use allio::input::{ListState, Rect};
use allio::modules::projects::wallwatch::fzf_match_update;
use allio::modules::projects::wallwatch::{RegistryData, RegistryState, WallpaperItem, Wallwatch};
use allio::modules::splash::centered_box;
use allio::theme::Theme;
use allio::modules::get_all_modules;
use allio::modules::interface::Interface;

#[test]
fn leading_hashes_do_not_matter() {
    assert_eq!(hex_rgb("#abcdef"), hex_rgb("abcdef"));
    assert_eq!(hex_rgb("###abcdef"), hex_rgb("abcdef"));
    assert_eq!(hex_rgb("#zz"), hex_rgb("zz"));
}

#[test]
fn active_border_follows_primary() {
    let t = Theme::from_json(r##"{"colors": {"primary": "#123456", "outlineVariant": "#000000"}}"##);
    assert_eq!(t.border_active, t.primary);
    let t = Theme::from_json("");
    assert_eq!(t.border_active, t.primary);
}

#[test]
fn finder_selection_stays_on_a_result() {
    let reg = RegistryData {
        state: RegistryState { is_dark: true, variant: "v".to_string() },
        wallpapers: (0..4)
            .map(|i| {
                (
                    format!("k{}", i),
                    WallpaperItem {
                        filename: format!("f{}.png", i),
                        relative_path: format!("dir{}/f{}.png", i % 2, i),
                        seed_argb: "0".to_string(),
                    },
                )
            })
            .collect(),
    };
    let mut w = Wallwatch::new(Some(vec![reg]), None);
    for (query, sel) in [("", 3usize), ("dir1", 3), ("dir9", 0)] {
        w.states.fzf_query = query.to_string();
        w.states.fzf_list_state = ListState::default().with_selected(Some(sel));
        fzf_match_update(&mut w.states);
        let m = w.states.fzf_matches.len();
        match w.states.fzf_list_state.selected() {
            Some(i) => assert!(i < m),
            None => assert_eq!(m, 0),
        }
        for (idx, key, item) in &w.states.fzf_matches {
            assert_eq!(&w.states.wallpapers[*idx].0, key);
            assert_eq!(w.states.wallpapers[*idx].1.relative_path, item.relative_path);
            assert!(query.is_empty() || item.relative_path.contains(query));
        }
    }
}

#[test]
fn splash_box_is_centered() {
    let r = centered_box(Rect { x: 0, y: 0, width: 100, height: 50 }, 20, 10);
    assert_eq!(r, Rect { x: 40, y: 20, width: 20, height: 10 });
}

#[test]
fn dashboard_layout_splits_the_workspace() {
    let w = Wallwatch::new(None, None);
    let mut i = Interface::new(get_all_modules(w), Theme::from_json(""));
    let (list, major, side) = i.arrange(Rect { x: 0, y: 0, width: 100, height: 40 });
    assert_eq!(list, Rect { x: 0, y: 0, width: 20, height: 12 });
    assert_eq!(major, Rect { x: 20, y: 0, width: 80, height: 40 });
    assert_eq!(side, Rect { x: 0, y: 12, width: 20, height: 28 });
    assert_eq!(i.minor_area, list);
    assert_eq!(i.major_area, major);
}

#[test]
fn wallwatch_layout_places_header_and_palette() {
    let mut w = Wallwatch::new(None, None);
    let a = w.arrange(Rect { x: 0, y: 0, width: 100, height: 30 });
    assert_eq!(a.header, Rect { x: 0, y: 0, width: 100, height: 3 });
    assert_eq!(a.palette, Rect { x: 70, y: 3, width: 30, height: 27 });
    assert_eq!(a.right, Rect { x: 0, y: 3, width: 70, height: 27 });
    assert_eq!(w.states.header_area, a.header);
    assert_eq!(w.states.palette_list_area, a.palette);
    assert_eq!(w.states.wallpaper_list_area, a.wallpaper_list);
    assert_eq!(w.states.control_panel_area, a.control_panel);
}
