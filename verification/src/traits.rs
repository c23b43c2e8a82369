use vstd::prelude::*;
use crate::modules::interface::Interface;

verus! {

/// A screen of the dashboard that can be switched on and off.
pub trait Component {
    /// Whether the component is switched on.
    spec fn spec_active(&self) -> bool;

    /// The component's name.
    fn name(&self) -> &'static str;

    /// The component's number.
    fn id(&self) -> u16;

    /// Whether the component is switched on.
    fn is_active(&self) -> (b: bool)
        ensures
            b == self.spec_active(),
    ;

    /// Switches the component on or off.
    fn set_active(&mut self, active: bool)
        ensures
            final(self).spec_active() == active,
    ;
}

impl Component for Interface {
    open spec fn spec_active(&self) -> bool {
        self.active
    }

    fn name(&self) -> (s: &'static str)
        ensures
            s@ == "Interface Screen"@,
    {
        "Interface Screen"
    }

    fn id(&self) -> (i: u16)
        ensures
            i == 0,
    {
        0
    }

    fn is_active(&self) -> (b: bool) {
        self.active
    }

    fn set_active(&mut self, active: bool)
        ensures
            *final(self) == (Interface { active, ..*old(self) }),
    {
        self.active = active
    }
}

} // verus!
