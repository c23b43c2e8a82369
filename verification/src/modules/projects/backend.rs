use vstd::prelude::*;

verus! {

/// What the header of a project module shows about the project.
pub struct ProjectDefinition {
    /// Project (submodule) name.
    pub name: String,
    /// A brief description.
    pub description: String,
    /// Whether the project is under git.
    pub git_enabled: bool,
    /// Whether the project's daemon (scoutd) is running for IPC.
    pub daemon_running: bool,
    /// Whether the project runs as a process.
    pub process: bool,
}

impl ProjectDefinition {
    /// The status badges of the header: git, daemon and process, each with
    /// whether it is on.
    pub fn get_status_indicators(&self) -> (v: Vec<(&'static str, bool)>)
        ensures
            v@.len() == 3,
            v@[0].0@ == " GIT"@ && v@[0].1 == self.git_enabled,
            v@[1].0@ == "󰊠 DAEMON"@ && v@[1].1 == self.daemon_running,
            v@[2].0@ == " PROC"@ && v@[2].1 == self.process,
    {
        let mut v: Vec<(&'static str, bool)> = Vec::new();
        v.push((" GIT", self.git_enabled));
        v.push(("󰊠 DAEMON", self.daemon_running));
        v.push((" PROC", self.process));
        v
    }
}

/// The names of the processes running now, each converted lossily to UTF-8,
/// as `sysinfo::System` lists them after refreshing all processes. What it
/// returns depends on the machine and the moment: nothing is stated of it.
#[verifier::external_body]
pub(crate) fn running_process_names() -> Vec<String> {
    let mut sys = sysinfo::System::new();
    sys.refresh_processes(sysinfo::ProcessesToUpdate::All, false);
    sys.processes().values().map(|p| p.name().to_string_lossy().into_owned()).collect()
}

/// Whether one of `names` is exactly `proc`.
pub open spec fn listed(names: Seq<String>, proc: Seq<char>) -> bool {
    exists|i: int| 0 <= i < names.len() && #[trigger] names[i]@ == proc
}

/// Whether one of `names` is exactly `proc`.
pub fn name_listed(names: &Vec<String>, proc: &str) -> (b: bool)
    ensures
        b == listed(names@, proc@),
{
    let n = names.len();
    let mut i: usize = 0;
    while i < n
        invariant
            n == names@.len(),
            i <= n,
            forall|j: int| 0 <= j < i ==> #[trigger] names@[j]@ != proc@,
        decreases n - i,
    {
        if crate::text::str_eq(names[i].as_str(), proc) {
            return true;
        }
        i += 1;
    }
    false
}

/// Whether a process named `proc` is running: the names that the process
/// table gives now are searched for `proc` (see `name_listed`). Which
/// processes run is the machine's business, so nothing is stated of the
/// answer.
pub fn process_running(proc: &str) -> bool {
    let names = running_process_names();
    name_listed(&names, proc)
}

} // verus!
