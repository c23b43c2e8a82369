use vstd::prelude::*;
use crate::modules::ModuleCategory;
use crate::modules::projects::backend::{ProjectDefinition, listed, name_listed, running_process_names};

verus! {

/// The scoutd module: the daemon that relays IPC over DBus.
pub struct Scoutd {
    pub name: String,
}

impl Scoutd {
    /// The scoutd module.
    pub fn new() -> (s: Scoutd)
        ensures
            s.name@ == "Scoutd"@,
    {
        Scoutd { name: String::from_str("Scoutd") }
    }

    /// Scoutd is listed under Projects.
    pub fn category(&self) -> (c: ModuleCategory)
        ensures
            c == ModuleCategory::Projects,
    {
        ModuleCategory::Projects
    }

    /// The name shown in the module list.
    pub fn submodname(&self) -> (s: &str)
        ensures
            s@ == self.name@,
    {
        self.name.as_str()
    }

    /// The project's name.
    pub fn name(&self) -> (s: &'static str)
        ensures
            s@ == "Scoutd"@,
    {
        "Scoutd"
    }

    /// The project's description.
    pub fn description(&self) -> (s: &'static str)
        ensures
            s@ == "Scout-d (daemon) for IPC communication via DBus"@,
    {
        "Scout-d (daemon) for IPC communication via DBus"
    }

    /// What the module's header shows, given the process names of two
    /// looks at the process table: under git, with the daemon flag telling
    /// whether `scoutd` is among the first names and the process flag whether
    /// it is among the second.
    pub fn definition_from(&self, daemon_names: &Vec<String>, proc_names: &Vec<String>) -> (d:
        ProjectDefinition)
        ensures
            d.name@ == self.name@,
            d.description@ == "Scout-d (daemon) for IPC communication via DBus"@,
            d.git_enabled,
            d.daemon_running == listed(daemon_names@, "scoutd"@),
            d.process == listed(proc_names@, "scoutd"@),
    {
        let daemon_running = name_listed(daemon_names, "scoutd");
        let process = name_listed(proc_names, "scoutd");
        ProjectDefinition {
            name: String::from_str(self.submodname()),
            description: String::from_str(self.description()),
            git_enabled: true,
            daemon_running,
            process,
        }
    }

    /// What the module's header shows: under git, with the daemon and the
    /// process flags each telling whether a `scoutd` process runs, from a
    /// look at the process table of its own (see `definition_from`).
    pub fn project_definition(&self) -> (d: ProjectDefinition)
        ensures
            d.name@ == self.name@,
            d.description@ == "Scout-d (daemon) for IPC communication via DBus"@,
            d.git_enabled,
    {
        let daemon_names = running_process_names();
        let proc_names = running_process_names();
        self.definition_from(&daemon_names, &proc_names)
    }
}

} // verus!
