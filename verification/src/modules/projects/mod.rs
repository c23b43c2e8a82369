pub mod backend;
pub mod helpers;
pub mod scoutd;
pub mod wallwatch;

use vstd::prelude::*;
use crate::modules::projects::scoutd::Scoutd;
use crate::modules::projects::wallwatch::Wallwatch;

verus! {

/// A project module: one of the projects that the dashboard knows.
pub enum Project {
    Wallwatch(Wallwatch),
    Scoutd(Scoutd),
}

impl Project {
    /// The process id of the project's running instance; no project tracks
    /// one yet.
    pub fn pid(&self) -> (r: Option<u32>)
        ensures
            r is None,
    {
        None
    }
}

/// All project modules, in list order: wallwatch (as read from its
/// registry), then scoutd.
pub fn get_all(wallwatch: Wallwatch) -> (v: Vec<Project>)
    ensures
        v@.len() == 2,
        v@[0] == Project::Wallwatch(wallwatch),
        v@[1] matches Project::Scoutd(s) && s.name@ == "Scoutd"@,
{
    let mut v: Vec<Project> = Vec::new();
    v.push(Project::Wallwatch(wallwatch));
    v.push(Project::Scoutd(Scoutd::new()));
    v
}

} // verus!
