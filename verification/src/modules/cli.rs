use vstd::prelude::*;

verus! {

/// The two kinds of command a module's command line takes: global commands,
/// which persist across a module's children, and submodule-specific ones.
/// A basic command can be piped into a global one, not the other way round.
#[derive(Debug, PartialEq, Eq, Clone, Copy, Structural)]
pub enum CliArgs {
    Command,
    Basic,
}

} // verus!
