use vstd::prelude::*;
use crate::config::Config;
use crate::input::{KeyCode, KeyEvent, MouseEvent};
use crate::modules::interface::{Interface, InterfaceMode};
use crate::modules::projects::wallwatch::LaunchRequest;

verus! {

/// What wakes the main loop.
pub enum EventTriggers {
    Key(KeyEvent),
    Mouse(MouseEvent),
    /// The daemon spoke, the terminal was resized, or something else asks
    /// for a new frame.
    Redraw,
}

/// What the main loop does after an event.
pub enum LoopAction {
    /// Leave the loop.
    Quit,
    /// Go on: re-read the theme first where `refresh_theme` says so, and
    /// start `launch` where it is given.
    Continue { refresh_theme: bool, launch: Option<LaunchRequest> },
}

/// Whether a key quits: `q` pressed in normal mode.
pub open spec fn quits(mode: InterfaceMode, key: KeyEvent) -> bool {
    key.code == KeyCode::Char('q') && mode == InterfaceMode::Normal
}

/// Whether the dashboard takes the event without a panic.
pub open spec fn event_ok(interface: Interface, event: EventTriggers) -> bool {
    match event {
        EventTriggers::Key(k) => !quits(interface.mode, k) ==> interface.key_ok(k),
        EventTriggers::Mouse(m) => interface.mouse_ok(m),
        EventTriggers::Redraw => true,
    }
}

/// The main loop's decision on one event: `q` in normal mode quits; any
/// other key goes to the dashboard; a mouse event refreshes the theme and
/// goes to the dashboard; a redraw refreshes the theme.
pub fn handle_event(interface: &mut Interface, event: EventTriggers, config: &Config) -> (a: LoopAction)
    requires
        event_ok(*old(interface), event),
    ensures
        match event {
            EventTriggers::Key(k) => if quits(old(interface).mode, k) {
                a is Quit && *final(interface) == *old(interface)
            } else {
                a matches LoopAction::Continue { refresh_theme, launch } && !refresh_theme
                    && Interface::event_post(*old(interface), k, *final(interface), *config, launch)
            },
            EventTriggers::Mouse(m) => a matches LoopAction::Continue { refresh_theme, launch }
                && refresh_theme && Interface::mouse_event_post(
                *old(interface),
                m,
                *final(interface),
                *config,
                launch,
            ),
            EventTriggers::Redraw => a == (LoopAction::Continue { refresh_theme: true, launch: None })
                && *final(interface) == *old(interface),
        },
        old(interface).wf() ==> final(interface).wf(),
{
    match event {
        EventTriggers::Key(key) => {
            if key.code == KeyCode::Char('q') && interface.mode == InterfaceMode::Normal {
                LoopAction::Quit
            } else {
                let launch = interface.event_handler(key, config);
                LoopAction::Continue { refresh_theme: false, launch }
            }
        },
        EventTriggers::Mouse(mouse) => {
            let launch = interface.mouse_handler(mouse, config);
            LoopAction::Continue { refresh_theme: true, launch }
        },
        EventTriggers::Redraw => LoopAction::Continue { refresh_theme: true, launch: None },
    }
}

/// Whether the dashboard takes the event (see `event_ok`).
pub fn accepts_event(interface: &Interface, event: &EventTriggers) -> (b: bool)
    ensures
        b == event_ok(*interface, *event),
{
    match event {
        EventTriggers::Key(k) => {
            if k.code == KeyCode::Char('q') && interface.mode == InterfaceMode::Normal {
                true
            } else {
                interface.accepts_key(*k)
            }
        },
        EventTriggers::Mouse(m) => interface.accepts_mouse(*m),
        EventTriggers::Redraw => true,
    }
}

} // verus!
