use vstd::prelude::*;
use crate::traits::Component;
use crate::input::Rect;
use crate::layout::{Constraint, Direction, layout_split, split};

verus! {

/// The splash screen.
pub struct Splash {
    pub active: bool,
}

impl Splash {
    /// The splash screen, switched on.
    pub fn new() -> (s: Splash)
        ensures
            s.active,
    {
        Splash { active: true }
    }
}

impl Component for Splash {
    open spec fn spec_active(&self) -> bool {
        self.active
    }

    fn name(&self) -> (s: &'static str)
        ensures
            s@ == "Splash Screen"@,
    {
        "Splash Screen"
    }

    fn id(&self) -> (i: u16)
        ensures
            i == 0,
    {
        0
    }

    fn is_active(&self) -> (b: bool) {
        self.active
    }

    fn set_active(&mut self, active: bool)
        ensures
            final(self).active == active,
    {
        self.active = active
    }
}

/// The three constraints that center a part of size `size` between two
/// equal fills.
pub open spec fn fill_around(size: u16) -> Seq<Constraint> {
    seq![Constraint::Fill(1), Constraint::Length(size), Constraint::Fill(1)]
}

fn fill_around_constraints(size: u16) -> (v: Vec<Constraint>)
    ensures
        v@ == fill_around(size),
{
    let mut v: Vec<Constraint> = Vec::new();
    v.push(Constraint::Fill(1));
    v.push(Constraint::Length(size));
    v.push(Constraint::Fill(1));
    v
}

/// A `width` by `height` box centered in `area`, for the splash art.
pub fn centered_box(area: Rect, width: u16, height: u16) -> (c: Rect)
    ensures
        c == layout_split(
            Direction::Horizontal,
            fill_around(width),
            layout_split(Direction::Vertical, fill_around(height), area)[1],
        )[1],
{
    let vertical = split(Direction::Vertical, &fill_around_constraints(height), area);
    let center = split(Direction::Horizontal, &fill_around_constraints(width), vertical[1]);
    center[1]
}

} // verus!
