use vstd::prelude::*;
use crate::traits::Component;

verus! {

/// The wallwatch screen.
pub struct WallwatchModule {
    pub active: bool,
}

impl Component for WallwatchModule {
    open spec fn spec_active(&self) -> bool {
        self.active
    }

    fn name(&self) -> (s: &'static str)
        ensures
            s@ == "Wallwatch"@,
    {
        "Wallwatch"
    }

    fn id(&self) -> (i: u16)
        ensures
            i == 1,
    {
        1
    }

    fn is_active(&self) -> (b: bool) {
        self.active
    }

    fn set_active(&mut self, active: bool)
        ensures
            final(self).active == active,
    {
        self.active = active
    }
}

} // verus!
