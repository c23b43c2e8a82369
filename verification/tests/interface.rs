use allio::allio::{handle_event, EventTriggers, LoopAction};
use allio::app::App;
use allio::config::Config;
use allio::input::{KeyCode, KeyEvent, KeyEventKind, MouseEvent, MouseEventKind, Rect};
use allio::modules::interface::{Interaction, Interface, InterfaceMode, VisibleItem};
use allio::modules::projects::backend::{name_listed, ProjectDefinition};
use allio::modules::projects::helpers::{centered_rect, header_filler_width, HeaderConfig};
use allio::modules::projects::scoutd::Scoutd;
use allio::modules::projects::wallwatch::{RegistryData, RegistryState, WallpaperItem, Wallwatch};
use allio::modules::projects::{get_all, Project};
use allio::modules::splash::Splash;
use allio::modules::{get_all_modules, Module, ModuleCategory};
use allio::theme::Theme;
use allio::traits::Component;

fn wallwatch() -> Wallwatch {
    let reg = RegistryData {
        state: RegistryState { is_dark: true, variant: "vibrant".to_string() },
        wallpapers: vec![(
            "k".to_string(),
            WallpaperItem {
                filename: "a.png".to_string(),
                relative_path: "x/a.png".to_string(),
                seed_argb: "0xff000000".to_string(),
            },
        )],
    };
    Wallwatch::new(Some(vec![reg]), None)
}

fn dashboard() -> Interface {
    Interface::new(get_all_modules(wallwatch()), Theme::from_json(""))
}

fn config() -> Config {
    Config::default("/home/u")
}

fn press(code: KeyCode) -> KeyEvent {
    KeyEvent::press(code)
}

#[test]
fn category_labels() {
    assert_eq!(ModuleCategory::Projects.as_str(), "Projects");
    assert_eq!(ModuleCategory::Tools.as_str(), "Tools");
    assert_eq!(ModuleCategory::Games.as_str(), "Games");
}

#[test]
fn new_dashboard_shows_collapsed_projects() {
    let i = dashboard();
    assert_eq!(i.visible_map, vec![VisibleItem::Header(ModuleCategory::Projects)]);
    assert_eq!(i.list_state.selected(), Some(0));
    assert_eq!(i.mode, InterfaceMode::Normal);
    assert!(i.items.iter().all(|it| it.interaction == Interaction::Idle && !it.is_expanded));
    assert_eq!(i.list_labels(), vec!["\u{25b6} Projects"]);
    assert_eq!(i.list_title(), "MODULES [N]");
    assert!(i.is_active());
    assert_eq!(i.name(), "Interface Screen");
    assert_eq!(i.id(), 0);
}

#[test]
fn enter_on_header_expands_then_collapses() {
    let mut i = dashboard();
    i.handle_enter();
    assert_eq!(
        i.visible_map,
        vec![
            VisibleItem::Header(ModuleCategory::Projects),
            VisibleItem::Submodule(0),
            VisibleItem::Submodule(1)
        ]
    );
    assert!(i.items.iter().all(|it| it.is_expanded));
    assert_eq!(
        i.list_labels(),
        vec!["\u{25bc} Projects", "  \u{251c}\u{2500} Wallwatch", "  \u{2514}\u{2500} Scoutd"]
    );
    i.handle_enter();
    assert_eq!(i.visible_map, vec![VisibleItem::Header(ModuleCategory::Projects)]);
    assert!(i.items.iter().all(|it| !it.is_expanded));
    assert_eq!(i.list_state.selected(), Some(0));
}

#[test]
fn space_and_backspace_move_and_hover() {
    let mut i = dashboard();
    i.handle_enter();
    i.next();
    assert_eq!(i.list_state.selected(), Some(1));
    assert_eq!(i.items[0].interaction, Interaction::Hovered);
    assert_eq!(i.items[1].interaction, Interaction::Idle);
    i.next();
    i.next();
    assert_eq!(i.list_state.selected(), Some(0));
    assert!(i.items.iter().all(|it| it.interaction == Interaction::Idle));
    i.prev();
    assert_eq!(i.list_state.selected(), Some(2));
    assert_eq!(i.items[1].interaction, Interaction::Hovered);
    i.next();
    i.prev();
    assert_eq!(i.list_state.selected(), Some(2));
}

#[test]
fn enter_on_a_module_row_keeps_it_hovered() {
    let mut i = dashboard();
    i.handle_enter();
    i.handle_hover(1);
    i.handle_enter();
    assert_eq!(i.items[0].interaction, Interaction::Hovered);
    assert_eq!(i.visible_map.len(), 3);
    i.handle_hover(9);
    assert_eq!(i.list_state.selected(), Some(1));
}

#[test]
fn keys_switch_modes_and_screen() {
    let mut i = dashboard();
    let c = config();
    i.event_handler(press(KeyCode::Char('i')), &c);
    assert_eq!(i.mode, InterfaceMode::Insert);
    i.event_handler(press(KeyCode::Esc), &c);
    assert_eq!(i.mode, InterfaceMode::Normal);
    i.event_handler(press(KeyCode::Char(':')), &c);
    assert_eq!(i.mode, InterfaceMode::Insert);
    i.event_handler(press(KeyCode::Esc), &c);
    i.event_handler(press(KeyCode::Char('f')), &c);
    assert!(i.fullscreen);
    let release = KeyEvent { code: KeyCode::Char('f'), kind: KeyEventKind::Other };
    i.event_handler(release, &c);
    assert!(i.fullscreen);
    i.event_handler(press(KeyCode::Enter), &c);
    assert_eq!(i.visible_map.len(), 3);
    i.event_handler(press(KeyCode::Char(' ')), &c);
    assert_eq!(i.list_state.selected(), Some(1));
    i.event_handler(press(KeyCode::Backspace), &c);
    assert_eq!(i.list_state.selected(), Some(0));
}

#[test]
fn keys_reach_the_selected_module() {
    let mut i = dashboard();
    let c = config();
    i.handle_enter();
    i.handle_hover(1);
    i.event_handler(press(KeyCode::Char('/')), &c);
    assert_eq!(i.mode, InterfaceMode::Insert);
    match &i.items[0].data {
        Module::Project(Project::Wallwatch(w)) => assert!(w.states.show_fzf),
        _ => panic!("wallwatch expected first"),
    }
    let r = i.event_handler(press(KeyCode::Enter), &c);
    assert_eq!(i.mode, InterfaceMode::Normal);
    let r = r.unwrap();
    assert_eq!(r.program, "/usr/bin/wallwatch");
    assert_eq!(r.args[0], "-w");
    assert_eq!(r.args[1], "/home/u/.local/share/wallpapers/x/a.png");
}

#[test]
fn slash_on_a_header_does_nothing() {
    let mut i = dashboard();
    i.event_handler(press(KeyCode::Char('/')), &config());
    assert_eq!(i.mode, InterfaceMode::Normal);
}

#[test]
fn mouse_on_the_list() {
    let mut i = dashboard();
    let (list, major, _side) = i.arrange(Rect { x: 0, y: 0, width: 100, height: 40 });
    assert_eq!(list, i.minor_area);
    assert_eq!(major, i.major_area);
    let click = MouseEvent { column: list.x + 1, row: list.y + 1, kind: MouseEventKind::LeftDown };
    i.mouse_handler(click, &config());
    assert_eq!(i.visible_map.len(), 3);
    let click = MouseEvent { column: list.x + 1, row: list.y + 2, kind: MouseEventKind::LeftDown };
    i.mouse_handler(click, &config());
    assert_eq!(i.list_state.selected(), Some(1));
    assert_eq!(i.items[0].interaction, Interaction::Hovered);
    let wheel = MouseEvent { column: list.x + 1, row: list.y + 2, kind: MouseEventKind::ScrollDown };
    i.mouse_handler(wheel, &config());
    assert_eq!(i.list_state.selected(), Some(2));
    let outside = MouseEvent { column: 99, row: 39, kind: MouseEventKind::ScrollDown };
    let before = i.list_state;
    i.mouse_handler(outside, &config());
    assert!(i.list_state == before || i.major_area.contains(99, 39));
}

#[test]
fn fullscreen_gives_the_module_the_workspace() {
    let mut i = dashboard();
    i.fullscreen = true;
    let ws = Rect { x: 1, y: 1, width: 50, height: 20 };
    let (list, major, side) = i.arrange(ws);
    assert_eq!(major, ws);
    assert_eq!(list, Rect::default());
    assert_eq!(side, Rect::default());
    assert_eq!(i.minor_area, Rect::default());
}

#[test]
fn q_quits_only_in_normal_mode() {
    let mut i = dashboard();
    let c = config();
    assert!(matches!(handle_event(&mut i, EventTriggers::Key(press(KeyCode::Char('q'))), &c), LoopAction::Quit));
    i.mode = InterfaceMode::Insert;
    assert!(matches!(
        handle_event(&mut i, EventTriggers::Key(press(KeyCode::Char('q'))), &c),
        LoopAction::Continue { refresh_theme: false, launch: None }
    ));
    assert!(matches!(
        handle_event(&mut i, EventTriggers::Redraw, &c),
        LoopAction::Continue { refresh_theme: true, launch: None }
    ));
}

#[test]
fn projects_and_modules_in_order() {
    let all = get_all(wallwatch());
    assert_eq!(all.len(), 2);
    assert!(matches!(&all[1], Project::Scoutd(s) if s.name == "Scoutd"));
    assert_eq!(all[0].pid(), None);
    assert_eq!(all[1].pid(), None);
    let mods = get_all_modules(wallwatch());
    assert_eq!(mods[0].submodname(), "Wallwatch");
    assert_eq!(mods[1].submodname(), "Scoutd");
    assert_eq!(mods[1].kind(), ModuleCategory::Projects);
}

#[test]
fn scoutd_texts() {
    let s = Scoutd::new();
    assert_eq!(s.name(), "Scoutd");
    assert_eq!(s.submodname(), "Scoutd");
    assert_eq!(s.description(), "Scout-d (daemon) for IPC communication via DBus");
    assert_eq!(s.category(), ModuleCategory::Projects);
    let d = s.project_definition();
    assert!(d.git_enabled);
    assert_eq!(d.name, "Scoutd");
}

#[test]
fn status_indicators_in_order() {
    let d = ProjectDefinition {
        name: "n".to_string(),
        description: "d".to_string(),
        git_enabled: true,
        daemon_running: false,
        process: true,
    };
    let v = d.get_status_indicators();
    assert_eq!(v, vec![("\u{e702} GIT", true), ("\u{f02a0} DAEMON", false), ("\u{eaf8} PROC", true)]);
}

#[test]
fn header_filler_fills_the_rest() {
    let cfg = HeaderConfig { name: "x", description: "desc", indicators: vec![("ab", true), ("c", false)] };
    // badges: (2 + 4) + (1 + 4) = 11; inner width 30 - 2 = 28; 28 - 11 - 4 = 13
    assert_eq!(header_filler_width(&cfg, 30), 13);
    assert_eq!(header_filler_width(&cfg, 10), 0);
}

#[test]
fn centered_rect_takes_the_middle() {
    let r = centered_rect(50, 40, Rect { x: 0, y: 0, width: 100, height: 50 });
    assert_eq!(r, Rect { x: 25, y: 15, width: 50, height: 20 });
}

#[test]
fn name_listed_is_exact() {
    let names = vec!["bash".to_string(), "scoutd".to_string()];
    assert!(name_listed(&names, "scoutd"));
    assert!(!name_listed(&names, "scout"));
}

#[test]
fn module_switch_moves_the_active_screen() {
    let mut app = App { modules: vec![Splash::new(), Splash::new()], active_module_index: 0, should_quit: false };
    app.modules[1].set_active(false);
    app.module_switch(1);
    assert_eq!(app.active_module_index, 1);
    assert!(!app.modules[0].is_active());
    assert!(app.modules[1].is_active());
    app.module_switch(5);
    assert_eq!(app.active_module_index, 1);
    assert_eq!(app.modules[0].name(), "Splash Screen");
}
