pub mod cli;
pub mod interface;
pub mod projects;
pub mod splash;
pub mod wallwatch;

use vstd::prelude::*;
use crate::config::Config;
use crate::input::{KeyEvent, MouseEvent};
use crate::modules::interface::InterfaceMode;
use crate::modules::projects::{Project, get_all};
use crate::modules::projects::wallwatch::{LaunchRequest, Wallwatch, launch_spec, launch_view};

verus! {

/// The super-module category a submodule is listed under.
#[derive(Debug, PartialEq, Eq, Clone, Copy, Structural)]
pub enum ModuleCategory {
    Projects,
    Tools,
    Games,
}

/// The label shown for a category header.
pub open spec fn category_label(cat: ModuleCategory) -> Seq<char> {
    match cat {
        ModuleCategory::Projects => "Projects"@,
        ModuleCategory::Tools => "Tools"@,
        ModuleCategory::Games => "Games"@,
    }
}

impl ModuleCategory {
    /// The category's display name.
    pub fn as_str(&self) -> (s: &'static str)
        ensures
            s@ == category_label(*self),
    {
        match self {
            ModuleCategory::Projects => "Projects",
            ModuleCategory::Tools => "Tools",
            ModuleCategory::Games => "Games",
        }
    }
}

/// A module of the dashboard.
pub enum Module {
    Project(Project),
}

impl Module {
    /// The category the module is listed under.
    pub open spec fn spec_kind(self) -> ModuleCategory {
        match self {
            Module::Project(_) => ModuleCategory::Projects,
        }
    }

    /// The category the module is listed under.
    pub fn kind(&self) -> (c: ModuleCategory)
        ensures
            c == self.spec_kind(),
    {
        match self {
            Module::Project(Project::Wallwatch(w)) => w.category(),
            Module::Project(Project::Scoutd(s)) => s.category(),
        }
    }

    /// The name shown in the module list.
    pub open spec fn spec_submodname(self) -> Seq<char> {
        match self {
            Module::Project(Project::Wallwatch(w)) => w.name@,
            Module::Project(Project::Scoutd(s)) => s.name@,
        }
    }

    /// The name shown in the module list.
    pub fn submodname(&self) -> (s: &str)
        ensures
            s@ == self.spec_submodname(),
    {
        match self {
            Module::Project(Project::Wallwatch(w)) => w.submodname(),
            Module::Project(Project::Scoutd(s)) => s.submodname(),
        }
    }

    /// Whether the module takes `key` in `mode`: scoutd takes no key (its
    /// key handling is unwritten); wallwatch takes those of `Wallwatch::input_ok`.
    pub open spec fn input_ok(self, key: KeyEvent, mode: InterfaceMode) -> bool {
        match self {
            Module::Project(Project::Wallwatch(w)) => w.input_ok(key.code, mode),
            Module::Project(Project::Scoutd(_)) => false,
        }
    }

    /// The interface mode after the module took a key.
    pub open spec fn input_mode(self, key: KeyEvent, mode: InterfaceMode) -> InterfaceMode {
        match self {
            Module::Project(Project::Wallwatch(w)) => w.input_mode(key.code, mode),
            Module::Project(Project::Scoutd(_)) => mode,
        }
    }

    /// How a key changes the module and the interface mode.
    pub open spec fn input_post(self, key: KeyEvent, mode: InterfaceMode, post: Module, post_mode: InterfaceMode) -> bool {
        match (self, post) {
            (Module::Project(Project::Wallwatch(w)), Module::Project(Project::Wallwatch(v))) => w.input_post(
                key.code,
                mode,
                v,
                post_mode,
            ),
            _ => false,
        }
    }

    /// The wallwatch run that a key starts, given the module after the key.
    pub open spec fn input_launch(self, key: KeyEvent, mode: InterfaceMode, post: Module, config: Config) -> Option<
        (Seq<char>, Seq<Seq<char>>),
    > {
        match (self, post) {
            (Module::Project(Project::Wallwatch(w)), Module::Project(Project::Wallwatch(v))) => match w.input_trigger(
                key.code,
                mode,
            ) {
                Some(i) => launch_spec(v.states, i as int, config),
                None => None,
            },
            _ => None,
        }
    }

    /// Passes a key to the module; returns the program run it asks for.
    pub fn handle_input(&mut self, key: KeyEvent, mode: &mut InterfaceMode, config: &Config) -> (r: Option<LaunchRequest>)
        requires
            old(self).input_ok(key, *old(mode)),
        ensures
            old(self).input_post(key, *old(mode), *final(self), *final(mode)),
            *final(mode) == old(self).input_mode(key, *old(mode)),
            launch_view(r) == old(self).input_launch(key, *old(mode), *final(self), *config),
    {
        match self {
            Module::Project(Project::Wallwatch(w)) => w.handle_input(key, mode, config),
            Module::Project(Project::Scoutd(_)) => None,
        }
    }

    /// Whether the module takes the mouse event `m`: scoutd takes none (its
    /// mouse handling is unwritten); wallwatch those of `Wallwatch::mouse_ok`.
    pub open spec fn mouse_ok(self, m: MouseEvent) -> bool {
        match self {
            Module::Project(Project::Wallwatch(w)) => w.mouse_ok(m),
            Module::Project(Project::Scoutd(_)) => false,
        }
    }

    /// How a mouse event changes the module.
    pub open spec fn mouse_post(self, m: MouseEvent, post: Module) -> bool {
        match (self, post) {
            (Module::Project(Project::Wallwatch(w)), Module::Project(Project::Wallwatch(v))) => v.name
                == w.name && v.states == w.mouse_post(m),
            _ => false,
        }
    }

    /// The wallwatch run that a mouse event starts, given the module after it.
    pub open spec fn mouse_launch(self, m: MouseEvent, post: Module, config: Config) -> Option<
        (Seq<char>, Seq<Seq<char>>),
    > {
        match (self, post) {
            (Module::Project(Project::Wallwatch(w)), Module::Project(Project::Wallwatch(v))) => match w.mouse_trigger(m) {
                Some(i) => launch_spec(v.states, i as int, config),
                None => None,
            },
            _ => None,
        }
    }

    /// Passes a mouse event to the module; returns the program run it asks for.
    pub fn handle_mouse(&mut self, mouse: MouseEvent, mode: InterfaceMode, config: &Config) -> (r: Option<LaunchRequest>)
        requires
            old(self).mouse_ok(mouse),
        ensures
            old(self).mouse_post(mouse, *final(self)),
            launch_view(r) == old(self).mouse_launch(mouse, *final(self), *config),
    {
        match self {
            Module::Project(Project::Wallwatch(w)) => w.handle_mouse(mouse, mode, config),
            Module::Project(Project::Scoutd(_)) => None,
        }
    }
}

impl Module {
    /// Whether the module takes `key` in `mode` (see `input_ok`).
    pub fn accepts_input(&self, key: KeyEvent, mode: InterfaceMode) -> (b: bool)
        ensures
            b == self.input_ok(key, mode),
    {
        match self {
            Module::Project(Project::Wallwatch(w)) => w.accepts_input(key.code, mode),
            Module::Project(Project::Scoutd(_)) => false,
        }
    }

    /// Whether the module takes the mouse event `m` (see `mouse_ok`).
    pub fn accepts_mouse(&self, m: MouseEvent) -> (b: bool)
        ensures
            b == self.mouse_ok(m),
    {
        match self {
            Module::Project(Project::Wallwatch(w)) => w.accepts_mouse(m),
            Module::Project(Project::Scoutd(_)) => false,
        }
    }
}

/// All modules of the dashboard, in list order: each project module.
pub fn get_all_modules(wallwatch: Wallwatch) -> (v: Vec<Module>)
    ensures
        v@.len() == 2,
        v@[0] == Module::Project(Project::Wallwatch(wallwatch)),
        v@[1] matches Module::Project(Project::Scoutd(s)) && s.name@ == "Scoutd"@,
{
    let projects = get_all(wallwatch);
    let mut all: Vec<Module> = Vec::new();
    let mut projects = projects;
    let ghost ps = projects@;
    while projects.len() > 0
        invariant
            all@.len() + projects@.len() == 2,
            projects@ == ps.skip(all@.len() as int),
            forall|j: int| 0 <= j < all@.len() ==> all@[j] == Module::Project(ps[j]),
            ps.len() == 2,
        decreases projects@.len(),
    {
        let p = projects.remove(0);
        all.push(Module::Project(p));
        assert(projects@ =~= ps.skip(all@.len() as int));
    }
    all
}

} // verus!
