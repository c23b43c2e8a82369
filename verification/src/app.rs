use vstd::prelude::*;
use crate::traits::Component;

verus! {

/// The screens of the application and which one is shown.
pub struct App<C: Component> {
    pub modules: Vec<C>,
    pub active_module_index: usize,
    pub should_quit: bool,
}

impl<C: Component> App<C> {
    /// Switches to screen `new_index`, if there is one: the current screen is
    /// switched off, then the new one on.
    pub fn module_switch(&mut self, new_index: usize)
        requires
            new_index < old(self).modules@.len() ==> old(self).active_module_index < old(self).modules@.len(),
        ensures
            new_index >= old(self).modules@.len() ==> *final(self) == *old(self),
            new_index < old(self).modules@.len() ==> {
                &&& final(self).modules@.len() == old(self).modules@.len()
                &&& final(self).active_module_index == new_index
                &&& final(self).should_quit == old(self).should_quit
                &&& final(self).modules@[new_index as int].spec_active()
                &&& new_index != old(self).active_module_index ==> !final(self).modules@[old(self).active_module_index as int].spec_active()
                &&& forall|i: int|
                    0 <= i < old(self).modules@.len() && i != new_index && i != old(self).active_module_index
                        ==> #[trigger] final(self).modules@[i] == old(self).modules@[i]
            },
    {
        if new_index < self.modules.len() {
            let old_index = self.active_module_index;
            self.modules[old_index].set_active(false);
            self.active_module_index = new_index;
            self.modules[new_index].set_active(true);
        }
    }
}

} // verus!
