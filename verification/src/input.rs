use vstd::prelude::*;

verus! {

/// The key codes that the dashboard reacts to; every other key is `Other`.
#[derive(Debug, PartialEq, Eq, Clone, Copy, Structural)]
pub enum KeyCode {
    Char(char),
    Esc,
    Enter,
    Backspace,
    Up,
    Down,
    Other,
}

/// Whether a key event is a press or something else (release, repeat).
#[derive(Debug, PartialEq, Eq, Clone, Copy, Structural)]
pub enum KeyEventKind {
    Press,
    Other,
}

/// A key event as the terminal reports it.
#[derive(Debug, PartialEq, Eq, Clone, Copy, Structural)]
pub struct KeyEvent {
    pub code: KeyCode,
    pub kind: KeyEventKind,
}

impl KeyEvent {
    /// A pressed key.
    pub fn press(code: KeyCode) -> (k: KeyEvent)
        ensures
            k.code == code,
            k.kind == KeyEventKind::Press,
    {
        KeyEvent { code, kind: KeyEventKind::Press }
    }
}

/// The mouse actions that the dashboard reacts to; every other one is `Other`.
#[derive(Debug, PartialEq, Eq, Clone, Copy, Structural)]
pub enum MouseEventKind {
    LeftDown,
    ScrollUp,
    ScrollDown,
    Other,
}

/// A mouse event at a terminal cell.
#[derive(Debug, PartialEq, Eq, Clone, Copy, Structural)]
pub struct MouseEvent {
    pub column: u16,
    pub row: u16,
    pub kind: MouseEventKind,
}

/// A rectangle of terminal cells.
#[derive(Debug, PartialEq, Eq, Clone, Copy, Structural)]
pub struct Rect {
    pub x: u16,
    pub y: u16,
    pub width: u16,
    pub height: u16,
}

/// `a + b`, saturating at `u16::MAX`.
pub open spec fn sat_add_u16(a: u16, b: u16) -> u16 {
    if a + b > u16::MAX {
        u16::MAX
    } else {
        (a + b) as u16
    }
}

/// `a - b`, or 0 where `b` exceeds `a` (a saturating subtraction).
pub open spec fn sat_sub(a: int, b: int) -> int {
    if a >= b {
        a - b
    } else {
        0
    }
}

impl Rect {
    /// The empty rectangle at the origin.
    pub open spec fn spec_default() -> Rect {
        Rect { x: 0, y: 0, width: 0, height: 0 }
    }

    /// The empty rectangle at the origin.
    #[verifier::when_used_as_spec(spec_default)]
    pub fn default() -> (r: Rect)
        ensures
            r == (Rect { x: 0, y: 0, width: 0, height: 0 }),
    {
        Rect { x: 0, y: 0, width: 0, height: 0 }
    }

    /// The column just right of the rectangle (saturating).
    pub open spec fn right(self) -> u16 {
        sat_add_u16(self.x, self.width)
    }

    /// The row just below the rectangle (saturating).
    pub open spec fn bottom(self) -> u16 {
        sat_add_u16(self.y, self.height)
    }

    /// Whether the cell (x, y) lies inside the rectangle.
    pub open spec fn spec_contains(self, x: u16, y: u16) -> bool {
        x >= self.x && x < self.right() && y >= self.y && y < self.bottom()
    }

    /// Whether the cell (x, y) lies inside the rectangle.
    pub fn contains(&self, x: u16, y: u16) -> (b: bool)
        ensures
            b == self.spec_contains(x, y),
    {
        let right = self.x.saturating_add(self.width);
        let bottom = self.y.saturating_add(self.height);
        x >= self.x && x < right && y >= self.y && y < bottom
    }
}

/// The selection and scroll offset of a list widget.
#[derive(Debug, PartialEq, Eq, Clone, Copy, Structural)]
pub struct ListState {
    pub offset: usize,
    pub selected: Option<usize>,
}

impl ListState {
    /// No selection, no scrolling.
    pub open spec fn spec_default() -> ListState {
        ListState { offset: 0, selected: None }
    }

    /// No selection, no scrolling.
    #[verifier::when_used_as_spec(spec_default)]
    pub fn default() -> (s: ListState)
        ensures
            s == (ListState { offset: 0, selected: None }),
    {
        ListState { offset: 0, selected: None }
    }

    /// The same state with the given selection.
    pub fn with_selected(self, selected: Option<usize>) -> (s: ListState)
        ensures
            s == (ListState { offset: self.offset, selected }),
    {
        ListState { offset: self.offset, selected }
    }

    /// The selected index, if any.
    pub fn selected(&self) -> (r: Option<usize>)
        ensures
            r == self.selected,
    {
        self.selected
    }

    /// The index of the first row shown.
    pub fn offset(&self) -> (r: usize)
        ensures
            r == self.offset,
    {
        self.offset
    }

    /// The state after selecting `index`.
    pub open spec fn spec_select(self, index: Option<usize>) -> ListState {
        ListState { offset: if index is None { 0 } else { self.offset }, selected: index }
    }

    /// Selects `index`; clearing the selection also scrolls back to the top.
    pub fn select(&mut self, index: Option<usize>)
        ensures
            *final(self) == old(self).spec_select(index),
    {
        self.selected = index;
        if index.is_none() {
            self.offset = 0;
        }
    }
}

} // verus!
