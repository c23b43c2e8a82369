use vstd::prelude::*;
use crate::input::Rect;
use ratatui::layout as rl;
use crate::layout::Constraint::{Fill, Length, Min, Percentage};
use crate::layout::Direction::{Horizontal, Vertical};

verus! {

/// The axis along which a layout splits an area.
#[derive(Debug, PartialEq, Eq, Clone, Copy, Structural)]
pub enum Direction {
    Horizontal,
    Vertical,
}

/// A size rule for one part of a layout.
#[derive(Debug, PartialEq, Eq, Clone, Copy, Structural)]
pub enum Constraint {
    Min(u16),
    Length(u16),
    Percentage(u16),
    Fill(u16),
}

/// The parts into which `ratatui`'s layout solver splits `area` along
/// `direction` under `constraints`.
pub uninterp spec fn layout_split(direction: Direction, constraints: Seq<Constraint>, area: Rect) -> Seq<
    Rect,
>;

/// Calls `ratatui::layout::Layout::split` with the given direction and
/// constraints, converting each constraint, the area and the resulting
/// rectangles one for one. The parts are named `layout_split`; that there
/// is one part per constraint is stated (`Layout::areas` panics otherwise).
#[verifier::external_body]
pub(crate) fn split(direction: Direction, constraints: &Vec<Constraint>, area: Rect) -> (r: Vec<Rect>)
    ensures
        r@ == layout_split(direction, constraints@, area),
        r@.len() == constraints@.len(),
{
    let d = match direction {
        Horizontal => rl::Direction::Horizontal,
        Vertical => rl::Direction::Vertical,
    };
    let cs = constraints.iter().map(|c| match *c {
        Min(v) => rl::Constraint::Min(v),
        Length(v) => rl::Constraint::Length(v),
        Percentage(v) => rl::Constraint::Percentage(v),
        Fill(v) => rl::Constraint::Fill(v),
    });
    let a = rl::Rect { x: area.x, y: area.y, width: area.width, height: area.height };
    rl::Layout::default().direction(d).constraints(cs).split(a).iter().map(|q| Rect { x: q.x, y: q.y, width: q.width, height: q.height }).collect()
}

/// Two constraints.
pub fn pair(a: Constraint, b: Constraint) -> (v: Vec<Constraint>)
    ensures
        v@ == seq![a, b],
{
    let mut v: Vec<Constraint> = Vec::new();
    v.push(a);
    v.push(b);
    v
}

} // verus!
