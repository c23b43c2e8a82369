use vstd::prelude::*;
use crate::config::Config;
use crate::input::{KeyCode, KeyEvent, KeyEventKind, ListState, MouseEvent, MouseEventKind, Rect, sat_sub};
use crate::modules::{Module, ModuleCategory, category_label};
use crate::modules::projects::Project;
use crate::modules::projects::wallwatch::{LaunchRequest, Wallwatch, WallwatchStates, launch_view};
use crate::theme::Theme;
use crate::layout::{Constraint, Direction, layout_split, pair, split};

verus! {

/// How a module row currently responds to the pointer and the keyboard.
#[derive(Debug, PartialEq, Eq, Clone, Copy, Structural)]
pub enum Interaction {
    Idle,
    Hovered,
    Selected,
}

/// Whether keys steer the dashboard (`Normal`) or go to text input (`Insert`).
#[derive(Debug, PartialEq, Eq, Clone, Copy, Structural)]
pub enum InterfaceMode {
    Normal,
    Insert,
}

/// A module as the module list holds it.
pub struct ModuleItem {
    pub data: Module,
    pub interaction: Interaction,
    pub is_expanded: bool,
}

/// A row of the module list: a category header, or the module at an index
/// of the item list.
#[derive(Debug, PartialEq, Eq, Clone, Copy, Structural)]
pub enum VisibleItem {
    Header(ModuleCategory),
    Submodule(usize),
}

/// The dashboard: a list of modules by category beside the selected
/// module's own view.
pub struct Interface {
    pub active: bool,
    pub list_state: ListState,
    pub items: Vec<ModuleItem>,
    pub visible_map: Vec<VisibleItem>,
    pub mode: InterfaceMode,
    pub theme: Theme,
    pub minor_area: Rect,
    pub major_area: Rect,
    pub fullscreen: bool,
}

/// What the module list depends on: each item's category and expansion.
pub open spec fn shape(items: Seq<ModuleItem>) -> Seq<(ModuleCategory, bool)> {
    items.map_values(|it: ModuleItem| (it.data.spec_kind(), it.is_expanded))
}

/// The positions of the items of category `cat`, in order.
pub open spec fn members(sh: Seq<(ModuleCategory, bool)>, cat: ModuleCategory) -> Seq<usize>
    decreases sh.len(),
{
    if sh.len() == 0 {
        seq![]
    } else {
        let rest = members(sh.drop_last(), cat);
        if sh.last().0 == cat {
            rest.push((sh.len() - 1) as usize)
        } else {
            rest
        }
    }
}

/// Whether some item of category `cat` is expanded.
pub open spec fn expanded(sh: Seq<(ModuleCategory, bool)>, cat: ModuleCategory) -> bool {
    exists|i: int| 0 <= i < sh.len() && #[trigger] sh[i].0 == cat && sh[i].1
}

/// The rows of category `cat`: none when it has no items; else its header,
/// followed by its items when the category is expanded.
pub open spec fn category_rows(sh: Seq<(ModuleCategory, bool)>, cat: ModuleCategory) -> Seq<VisibleItem> {
    let m = members(sh, cat);
    if m.len() == 0 {
        seq![]
    } else {
        seq![VisibleItem::Header(cat)] + if expanded(sh, cat) {
            m.map_values(|i: usize| VisibleItem::Submodule(i))
        } else {
            seq![]
        }
    }
}

/// The rows of the module list, category by category.
pub open spec fn visible_rows(sh: Seq<(ModuleCategory, bool)>) -> Seq<VisibleItem> {
    category_rows(sh, ModuleCategory::Projects) + category_rows(sh, ModuleCategory::Tools)
        + category_rows(sh, ModuleCategory::Games)
}

/// All items of a category are expanded alike.
pub open spec fn uniform(sh: Seq<(ModuleCategory, bool)>) -> bool {
    forall|i: int, j: int|
        0 <= i < sh.len() && 0 <= j < sh.len() && #[trigger] sh[i].0 == #[trigger] sh[j].0 ==> sh[i].1
            == sh[j].1
}

/// The item that row `idx` shows, if it shows one.
pub open spec fn hover_target(visible: Seq<VisibleItem>, n: nat, idx: int) -> Option<int> {
    if 0 <= idx < visible.len() {
        match visible[idx] {
            VisibleItem::Submodule(d) => if d < n {
                Some(d as int)
            } else {
                None
            },
            VisibleItem::Header(_) => None,
        }
    } else {
        None
    }
}

/// The items with the `target` item hovered and all others idle.
pub open spec fn with_interactions(items: Seq<ModuleItem>, target: Option<int>) -> Seq<ModuleItem> {
    Seq::new(
        items.len(),
        |i: int|
            ModuleItem {
                interaction: if target == Some(i) {
                    Interaction::Hovered
                } else {
                    Interaction::Idle
                },
                ..items[i]
            },
    )
}

/// The items after Enter on a row: a header flips its category (all of its
/// items become expanded, or all collapsed where some was expanded); a
/// module row changes no expansion.
pub open spec fn entered(items: Seq<ModuleItem>, row: VisibleItem) -> Seq<ModuleItem> {
    match row {
        VisibleItem::Header(cat) => {
            let now = expanded(shape(items), cat);
            Seq::new(
                items.len(),
                |i: int|
                    if items[i].data.spec_kind() == cat {
                        ModuleItem { is_expanded: !now, ..items[i] }
                    } else {
                        items[i]
                    },
            )
        },
        VisibleItem::Submodule(_) => items,
    }
}

/// The row after Space: the next row, wrapping to the first; the first row
/// where none is selected.
pub open spec fn next_index(sel: Option<usize>, len: nat) -> usize {
    match sel {
        Some(i) => if i >= len - 1 {
            0
        } else {
            (i + 1) as usize
        },
        None => 0,
    }
}

/// The row after Backspace: the previous row, wrapping to the last; the
/// first row where none is selected.
pub open spec fn prev_index(sel: Option<usize>, len: nat) -> usize {
    match sel {
        Some(i) => if i == 0 {
            (len - 1) as usize
        } else {
            (i - 1) as usize
        },
        None => 0,
    }
}

/// Whether a key switches the dashboard to insert mode.
pub open spec fn is_insert_key(k: KeyCode) -> bool {
    k == KeyCode::Char(':') || k == KeyCode::Char('i') || k == KeyCode::Char('a')
}

impl Interface {
    /// The row list matches the items, each category is expanded alike, and
    /// a selected row exists (unless there are no rows at all).
    pub open spec fn wf(self) -> bool {
        &&& self.visible_map@ == visible_rows(shape(self.items@))
        &&& uniform(shape(self.items@))
        &&& match self.list_state.selected {
            Some(i) => i < self.visible_map@.len() || self.visible_map@.len() == 0,
            None => true,
        }
    }

    /// Whether navigation can move: there are rows, or none is selected.
    pub open spec fn nav_ok(self) -> bool {
        self.visible_map@.len() > 0 || self.list_state.selected is None
    }

    /// The item under the selected row, if the selected row shows one.
    pub open spec fn target(self) -> Option<int> {
        match self.list_state.selected {
            Some(i) => hover_target(self.visible_map@, self.items@.len(), i as int),
            None => None,
        }
    }

    /// Everything but the items and the list state is the same in `a` and `b`.
    pub open spec fn same_frame(a: Interface, b: Interface) -> bool {
        &&& a.active == b.active
        &&& a.visible_map@ == b.visible_map@
        &&& a.mode == b.mode
        &&& a.theme == b.theme
        &&& a.minor_area == b.minor_area
        &&& a.major_area == b.major_area
        &&& a.fullscreen == b.fullscreen
    }
}

proof fn lemma_members_prefix(sh: Seq<(ModuleCategory, bool)>, cat: ModuleCategory, i: int)
    requires
        0 <= i < sh.len(),
    ensures
        members(sh.take(i + 1), cat) == if sh[i].0 == cat {
            members(sh.take(i), cat).push(i as usize)
        } else {
            members(sh.take(i), cat)
        },
{
    assert(sh.take(i + 1).drop_last() =~= sh.take(i));
}

fn members_of(items: &Vec<ModuleItem>, cat: ModuleCategory) -> (r: (Vec<usize>, bool))
    ensures
        r.0@ == members(shape(items@), cat),
        r.1 == expanded(shape(items@), cat),
{
    let ghost sh = shape(items@);
    let n = items.len();
    let mut sub: Vec<usize> = Vec::new();
    let mut any_expanded = false;
    let mut i: usize = 0;
    assert(sh.take(0) =~= Seq::<(ModuleCategory, bool)>::empty());
    while i < n
        invariant
            n == items@.len(),
            sh == shape(items@),
            i <= n,
            sub@ == members(sh.take(i as int), cat),
            any_expanded == exists|j: int| 0 <= j < i && #[trigger] sh[j].0 == cat && sh[j].1,
        decreases n - i,
    {
        proof {
            lemma_members_prefix(sh, cat, i as int);
        }
        if items[i].data.kind() == cat {
            sub.push(i);
            if items[i].is_expanded {
                any_expanded = true;
            }
        }
        i += 1;
    }
    assert(sh.take(n as int) =~= sh);
    (sub, any_expanded)
}

fn category_rows_of(items: &Vec<ModuleItem>, cat: ModuleCategory) -> (r: Vec<VisibleItem>)
    ensures
        r@ == category_rows(shape(items@), cat),
{
    let ghost sh = shape(items@);
    let (sub, any_expanded) = members_of(items, cat);
    if sub.len() == 0 {
        return Vec::new();
    }
    let mut r: Vec<VisibleItem> = Vec::new();
    r.push(VisibleItem::Header(cat));
    if any_expanded {
        let m = sub.len();
        let mut j: usize = 0;
        while j < m
            invariant
                m == sub@.len(),
                j <= m,
                r@ == seq![VisibleItem::Header(cat)] + sub@.take(j as int).map_values(|x: usize| VisibleItem::Submodule(x)),
            decreases m - j,
        {
            r.push(VisibleItem::Submodule(sub[j]));
            proof {
                assert(sub@.take(j + 1).map_values(|x: usize| VisibleItem::Submodule(x)) =~= sub@.take(j as int).map_values(
                    |x: usize| VisibleItem::Submodule(x),
                ).push(VisibleItem::Submodule(sub@[j as int])));
            }
            j += 1;
        }
        assert(sub@.take(m as int) =~= sub@);
    }
    assert(r@ =~= category_rows(sh, cat));
    r
}

impl Interface {
    /// Rebuilds the module list's rows from the items.
    pub fn map_rebuild(&mut self)
        ensures
            final(self).visible_map@ == visible_rows(shape(old(self).items@)),
            *final(self) == (Interface { visible_map: final(self).visible_map, ..*old(self) }),
    {
        let mut map = category_rows_of(&self.items, ModuleCategory::Projects);
        let mut tools = category_rows_of(&self.items, ModuleCategory::Tools);
        let mut games = category_rows_of(&self.items, ModuleCategory::Games);
        map.append(&mut tools);
        map.append(&mut games);
        self.visible_map = map;
    }

    /// Marks the item under row `idx` hovered and every other item idle.
    pub fn update_interactions(&mut self, idx: usize)
        ensures
            final(self).items@ == with_interactions(
                old(self).items@,
                hover_target(old(self).visible_map@, old(self).items@.len(), idx as int),
            ),
            *final(self) == (Interface { items: final(self).items, ..*old(self) }),
    {
        let ghost target = hover_target(self.visible_map@, self.items@.len(), idx as int);
        let ghost before = self.items@;
        let n = self.items.len();
        let mut i: usize = 0;
        while i < n
            invariant
                n == self.items@.len(),
                n == before.len(),
                before == old(self).items@,
                *self == (Interface { items: self.items, ..*old(self) }),
                i <= n,
                forall|j: int| 0 <= j < i ==> #[trigger] self.items@[j] == (ModuleItem { interaction: Interaction::Idle, ..before[j] }),
                forall|j: int| i <= j < n ==> #[trigger] self.items@[j] == before[j],
            decreases n - i,
        {
            self.items[i].interaction = Interaction::Idle;
            i += 1;
        }
        if idx < self.visible_map.len() {
            match self.visible_map[idx] {
                VisibleItem::Submodule(data_idx) => {
                    if data_idx < n {
                        self.items[data_idx].interaction = Interaction::Hovered;
                    }
                },
                VisibleItem::Header(_) => {},
            }
        }
        assert(self.items@ =~= with_interactions(before, target));
    }
}

/// The module list's items for freshly loaded modules: idle and collapsed.
pub open spec fn fresh_items(modules: Seq<Module>) -> Seq<ModuleItem> {
    modules.map_values(|m: Module| ModuleItem { data: m, interaction: Interaction::Idle, is_expanded: false })
}


/// The items after Enter on row `idx` of `visible`.
pub open spec fn enter_items(items: Seq<ModuleItem>, visible: Seq<VisibleItem>, idx: int) -> Seq<ModuleItem> {
    let pre = entered(items, visible[idx]);
    with_interactions(pre, hover_target(visible_rows(shape(pre)), pre.len(), idx))
}

/// The rows after Enter on row `idx` of `visible`.
pub open spec fn enter_visible(items: Seq<ModuleItem>, visible: Seq<VisibleItem>, idx: int) -> Seq<VisibleItem> {
    visible_rows(shape(entered(items, visible[idx])))
}

impl Interface {
    /// `post` is `pre` after Space: the next row selected and hovered.
    pub open spec fn next_post(pre: Interface, post: Interface) -> bool {
        let i = next_index(pre.list_state.selected, pre.visible_map@.len());
        &&& post.list_state == pre.list_state.spec_select(Some(i))
        &&& post.items@ == with_interactions(pre.items@, hover_target(pre.visible_map@, pre.items@.len(), i as int))
        &&& Interface::same_frame(pre, post)
    }

    /// `post` is `pre` after Backspace: the previous row selected and hovered.
    pub open spec fn prev_post(pre: Interface, post: Interface) -> bool {
        let i = prev_index(pre.list_state.selected, pre.visible_map@.len());
        &&& post.list_state == pre.list_state.spec_select(Some(i))
        &&& post.items@ == with_interactions(pre.items@, hover_target(pre.visible_map@, pre.items@.len(), i as int))
        &&& Interface::same_frame(pre, post)
    }

    /// `post` is `pre` after Enter.
    pub open spec fn enter_post(pre: Interface, post: Interface) -> bool {
        match pre.list_state.selected {
            None => post == pre,
            Some(idx) => {
                &&& post.visible_map@ == enter_visible(pre.items@, pre.visible_map@, idx as int)
                &&& post.items@ == enter_items(pre.items@, pre.visible_map@, idx as int)
                &&& post == (Interface { items: post.items, visible_map: post.visible_map, ..pre })
            },
        }
    }

    /// Whether Enter finds the selected row (it panics on a selection past the rows).
    pub open spec fn enter_ok(self) -> bool {
        match self.list_state.selected {
            Some(i) => i < self.visible_map@.len(),
            None => true,
        }
    }
}

impl Interface {
    /// The dashboard over `modules` with theme `theme`: active, in normal
    /// mode, every category collapsed, the first row selected and hovered.
    pub fn new(modules: Vec<Module>, theme: Theme) -> (r: Interface)
        ensures
            r.active,
            r.list_state == (ListState { offset: 0, selected: Some(0) }),
            r.visible_map@ == visible_rows(shape(fresh_items(modules@))),
            r.items@ == with_interactions(fresh_items(modules@), hover_target(r.visible_map@, modules@.len(), 0)),
            r.mode == InterfaceMode::Normal,
            r.theme == theme,
            r.minor_area == Rect::default(),
            r.major_area == Rect::default(),
            !r.fullscreen,
            r.wf(),
    {
        let mut modules = modules;
        let ghost ms = modules@;
        let mut items: Vec<ModuleItem> = Vec::new();
        while modules.len() > 0
            invariant
                items@.len() + modules@.len() == ms.len(),
                modules@ == ms.skip(items@.len() as int),
                items@ == fresh_items(ms.take(items@.len() as int)),
            decreases modules@.len(),
        {
            let m = modules.remove(0);
            let ghost k = items@.len() as int;
            items.push(ModuleItem { data: m, interaction: Interaction::Idle, is_expanded: false });
            assert(modules@ =~= ms.skip(k + 1));
            assert(items@ =~= fresh_items(ms.take(k + 1)));
        }
        assert(ms.take(ms.len() as int) =~= ms);
        let mut instance = Interface {
            active: true,
            list_state: ListState::default().with_selected(Some(0)),
            items,
            visible_map: Vec::new(),
            mode: InterfaceMode::Normal,
            theme,
            minor_area: Rect::default(),
            major_area: Rect::default(),
            fullscreen: false,
        };
        instance.map_rebuild();
        instance.update_interactions(0);
        proof {
            assert(shape(instance.items@) =~= shape(fresh_items(ms)));
            lemma_fresh_uniform(ms);
        }
        instance
    }

    /// Selects the next row, wrapping around, and hovers its item.
    pub fn next(&mut self)
        requires
            old(self).nav_ok(),
        ensures
            Interface::next_post(*old(self), *final(self)),
            old(self).wf() ==> final(self).wf(),
    {
        let i = match self.list_state.selected() {
            Some(i) => {
                if i >= self.visible_map.len() - 1 {
                    0
                } else {
                    i + 1
                }
            },
            None => 0,
        };
        self.list_state.select(Some(i));
        self.update_interactions(i);
        proof {
            assert(shape(self.items@) =~= shape(old(self).items@));
        }
    }

    /// Selects the previous row, wrapping around, and hovers its item.
    pub fn prev(&mut self)
        requires
            old(self).nav_ok(),
        ensures
            Interface::prev_post(*old(self), *final(self)),
            old(self).wf() ==> final(self).wf(),
    {
        let i = match self.list_state.selected() {
            Some(i) => {
                if i == 0 {
                    self.visible_map.len() - 1
                } else {
                    i - 1
                }
            },
            None => 0,
        };
        self.list_state.select(Some(i));
        self.update_interactions(i);
        proof {
            assert(shape(self.items@) =~= shape(old(self).items@));
        }
    }

    /// Selects row `idx` and hovers its item, if there is such a row.
    pub fn handle_hover(&mut self, idx: usize)
        ensures
            idx < old(self).visible_map@.len() ==> {
                &&& final(self).list_state == old(self).list_state.spec_select(Some(idx))
                &&& final(self).items@ == with_interactions(
                    old(self).items@,
                    hover_target(old(self).visible_map@, old(self).items@.len(), idx as int),
                )
                &&& Interface::same_frame(*old(self), *final(self))
            },
            idx >= old(self).visible_map@.len() ==> *final(self) == *old(self),
            Interface::hover_post(*old(self), idx as int, *final(self)),
            old(self).wf() ==> final(self).wf(),
    {
        if idx < self.visible_map.len() {
            self.list_state.select(Some(idx));
            self.update_interactions(idx);
            proof {
                assert(shape(self.items@) =~= shape(old(self).items@));
            }
        }
    }
}

proof fn lemma_fresh_uniform(ms: Seq<Module>)
    ensures
        uniform(shape(fresh_items(ms))),
{
}

fn toggle_category(items: &mut Vec<ModuleItem>, cat: ModuleCategory)
    ensures
        final(items)@ == entered(old(items)@, VisibleItem::Header(cat)),
{
    let ghost before = items@;
    let n = items.len();
    let mut now_expanded = false;
    let mut i: usize = 0;
    while i < n
        invariant
            n == items@.len(),
            items@ == before,
            i <= n,
            now_expanded == exists|j: int| 0 <= j < i && #[trigger] shape(before)[j].0 == cat && shape(before)[j].1,
        decreases n - i,
    {
        assert(shape(before)[i as int] == (before[i as int].data.spec_kind(), before[i as int].is_expanded));
        if items[i].data.kind() == cat && items[i].is_expanded {
            assert(shape(before)[i as int].0 == cat && shape(before)[i as int].1);
            now_expanded = true;
        }
        i += 1;
    }
    assert(now_expanded == expanded(shape(before), cat));
    let mut i: usize = 0;
    while i < n
        invariant
            n == items@.len(),
            n == before.len(),
            i <= n,
            now_expanded == expanded(shape(before), cat),
            forall|j: int| 0 <= j < i ==> #[trigger] items@[j] == entered(before, VisibleItem::Header(cat))[j],
            forall|j: int| i <= j < n ==> #[trigger] items@[j] == before[j],
        decreases n - i,
    {
        if items[i].data.kind() == cat {
            items[i].is_expanded = !now_expanded;
        }
        i += 1;
    }
    assert(items@ =~= entered(before, VisibleItem::Header(cat)));
}

proof fn lemma_members_by_kinds(a: Seq<(ModuleCategory, bool)>, b: Seq<(ModuleCategory, bool)>, cat: ModuleCategory)
    requires
        a.len() == b.len(),
        forall|i: int| 0 <= i < a.len() ==> a[i].0 == b[i].0,
    ensures
        members(a, cat) == members(b, cat),
    decreases a.len(),
{
    if a.len() > 0 {
        lemma_members_by_kinds(a.drop_last(), b.drop_last(), cat);
    }
}

proof fn lemma_rows_header(sh: Seq<(ModuleCategory, bool)>, k: ModuleCategory, j: int)
    requires
        0 <= j < category_rows(sh, k).len(),
        category_rows(sh, k)[j] is Header,
    ensures
        j == 0,
        category_rows(sh, k)[j] == VisibleItem::Header(k),
{
}

/// Flipping the expansion of category `cat` changes the rows of no other
/// category, and keeps the header of `cat`.
proof fn lemma_entered_rows(items: Seq<ModuleItem>, cat: ModuleCategory)
    ensures
        ({
            let a = shape(items);
            let b = shape(entered(items, VisibleItem::Header(cat)));
            &&& forall|k: ModuleCategory| k != cat ==> #[trigger] category_rows(b, k) == category_rows(a, k)
            &&& members(b, cat) == members(a, cat)
            &&& category_rows(b, cat).len() > 0 <==> category_rows(a, cat).len() > 0
            &&& category_rows(a, cat).len() > 0 ==> category_rows(b, cat)[0] == VisibleItem::Header(cat)
        }),
{
    let a = shape(items);
    let e = entered(items, VisibleItem::Header(cat));
    let b = shape(e);
    assert(a.len() == b.len());
    assert forall|k: ModuleCategory| true implies members(b, k) == members(a, k) by {
        lemma_members_by_kinds(b, a, k);
    }
    assert forall|k: ModuleCategory| k != cat implies expanded(b, k) == expanded(a, k) by {
        if expanded(a, k) {
            let j = choose|j: int| 0 <= j < a.len() && #[trigger] a[j].0 == k && a[j].1;
            assert(b[j].0 == k && b[j].1);
        }
        if expanded(b, k) {
            let j = choose|j: int| 0 <= j < b.len() && #[trigger] b[j].0 == k && b[j].1;
            assert(a[j].0 == k && a[j].1);
        }
    }
    assert forall|k: ModuleCategory| k != cat implies #[trigger] category_rows(b, k) == category_rows(a, k) by {
        assert(members(b, k) == members(a, k));
    }
    assert(members(b, cat) == members(a, cat));
}

/// A header row of `cat` stays where it is when `cat`'s expansion flips.
proof fn lemma_header_stays(items: Seq<ModuleItem>, cat: ModuleCategory, idx: int)
    requires
        0 <= idx < visible_rows(shape(items)).len(),
        visible_rows(shape(items))[idx] == VisibleItem::Header(cat),
    ensures
        0 <= idx < visible_rows(shape(entered(items, VisibleItem::Header(cat)))).len(),
        visible_rows(shape(entered(items, VisibleItem::Header(cat))))[idx] == VisibleItem::Header(cat),
{
    let a = shape(items);
    let b = shape(entered(items, VisibleItem::Header(cat)));
    lemma_entered_rows(items, cat);
    let pa = category_rows(a, ModuleCategory::Projects);
    let ta = category_rows(a, ModuleCategory::Tools);
    let ga = category_rows(a, ModuleCategory::Games);
    let pb = category_rows(b, ModuleCategory::Projects);
    let tb = category_rows(b, ModuleCategory::Tools);
    let gb = category_rows(b, ModuleCategory::Games);
    if idx < pa.len() {
        lemma_rows_header(a, ModuleCategory::Projects, idx);
        assert(cat == ModuleCategory::Projects);
        assert(visible_rows(b) == pb + tb + gb);
    } else if idx < pa.len() + ta.len() {
        assert(visible_rows(a)[idx] == ta[idx - pa.len()]);
        lemma_rows_header(a, ModuleCategory::Tools, idx - pa.len());
        assert(cat == ModuleCategory::Tools);
        assert(pb == pa);
        assert(visible_rows(b)[idx] == tb[idx - pb.len()]);
    } else {
        assert(visible_rows(a)[idx] == ga[idx - pa.len() - ta.len()]);
        lemma_rows_header(a, ModuleCategory::Games, idx - pa.len() - ta.len());
        assert(cat == ModuleCategory::Games);
        assert(pb == pa);
        assert(tb == ta);
        assert(visible_rows(b)[idx] == gb[idx - pb.len() - tb.len()]);
    }
}

/// Flipping a category keeps every category expanded alike.
proof fn lemma_entered_uniform(items: Seq<ModuleItem>, cat: ModuleCategory)
    requires
        uniform(shape(items)),
    ensures
        uniform(shape(entered(items, VisibleItem::Header(cat)))),
{
    let a = shape(items);
    let b = shape(entered(items, VisibleItem::Header(cat)));
    assert forall|i: int, j: int|
        0 <= i < b.len() && 0 <= j < b.len() && #[trigger] b[i].0 == #[trigger] b[j].0 implies b[i].1 == b[j].1 by {
        assert(a[i].0 == b[i].0 && a[j].0 == b[j].0);
        if a[i].0 != cat {
            assert(b[i] == a[i] && b[j] == a[j]);
        }
    }
}

impl Interface {
    /// Enter on the selected row: a header expands or collapses its category,
    /// a module row is selected. The rows are rebuilt and the selected row's
    /// item hovered (which overrides the selection mark).
    pub fn handle_enter(&mut self)
        requires
            old(self).enter_ok(),
        ensures
            Interface::enter_post(*old(self), *final(self)),
            old(self).wf() ==> final(self).wf(),
    {
        if let Some(idx) = self.list_state.selected() {
            let ghost row = self.visible_map@[idx as int];
            let ghost pre = entered(old(self).items@, row);
            match self.visible_map[idx] {
                VisibleItem::Header(cat) => {
                    toggle_category(&mut self.items, cat);
                    proof {
                        if old(self).wf() {
                            lemma_header_stays(old(self).items@, cat, idx as int);
                            lemma_entered_uniform(old(self).items@, cat);
                        }
                    }
                },
                VisibleItem::Submodule(d) => {
                    if d < self.items.len() {
                        self.items[d].interaction = Interaction::Selected;
                    }
                },
            }
            assert(shape(self.items@) =~= shape(pre));
            self.map_rebuild();
            self.update_interactions(idx);
            assert(self.items@ =~= with_interactions(pre, hover_target(self.visible_map@, pre.len(), idx as int)));
            assert(shape(self.items@) =~= shape(pre));
            proof {
                if old(self).wf() {
                    match row {
                        VisibleItem::Header(cat) => {},
                        VisibleItem::Submodule(_) => {
                            assert(shape(pre) =~= shape(old(self).items@));
                        },
                    }
                }
            }
        }
    }
}

impl Interface {
    /// Whether the module under the selected row takes `key` (true where no
    /// module is selected, since then no module gets the key).
    pub open spec fn dispatch_ok(self, key: KeyEvent) -> bool {
        match self.target() {
            Some(d) => self.items@[d].data.input_ok(key, self.mode),
            None => true,
        }
    }

    /// The mode after the module under the selected row took `key`.
    pub open spec fn dispatch_mode(self, key: KeyEvent) -> InterfaceMode {
        match self.target() {
            Some(d) => self.items@[d].data.input_mode(key, self.mode),
            None => self.mode,
        }
    }

    /// `post` is `pre` after passing `key` to the module under the selected
    /// row (nothing changes where no module is selected); `r` is the run it
    /// asked for.
    pub open spec fn dispatched(
        pre: Interface,
        key: KeyEvent,
        post: Interface,
        config: Config,
        r: Option<LaunchRequest>,
    ) -> bool {
        match pre.target() {
            None => post == pre && r is None,
            Some(d) => {
                &&& post.items@.len() == pre.items@.len()
                &&& forall|i: int| 0 <= i < pre.items@.len() && i != d ==> #[trigger] post.items@[i] == pre.items@[i]
                &&& post.items@[d].interaction == pre.items@[d].interaction
                &&& post.items@[d].is_expanded == pre.items@[d].is_expanded
                &&& pre.items@[d].data.input_post(key, pre.mode, post.items@[d].data, post.mode)
                &&& post.mode == pre.dispatch_mode(key)
                &&& launch_view(r) == pre.items@[d].data.input_launch(key, pre.mode, post.items@[d].data, config)
                &&& post.active == pre.active
                &&& post.list_state == pre.list_state
                &&& post.visible_map == pre.visible_map
                &&& post.theme == pre.theme
                &&& post.minor_area == pre.minor_area
                &&& post.major_area == pre.major_area
                &&& post.fullscreen == pre.fullscreen
            },
        }
    }

    /// The item under the selected row, if the selected row shows one.
    pub fn selected_target(&self) -> (r: Option<usize>)
        ensures
            match r {
                Some(d) => self.target() == Some(d as int),
                None => self.target() is None,
            },
    {
        if let Some(visual_idx) = self.list_state.selected() {
            if visual_idx < self.visible_map.len() {
                if let VisibleItem::Submodule(data_idx) = self.visible_map[visual_idx] {
                    if data_idx < self.items.len() {
                        return Some(data_idx);
                    }
                }
            }
        }
        None
    }

    fn dispatch_key(&mut self, key: KeyEvent, config: &Config) -> (r: Option<LaunchRequest>)
        requires
            old(self).dispatch_ok(key),
        ensures
            Interface::dispatched(*old(self), key, *final(self), *config, r),
            old(self).wf() ==> final(self).wf(),
    {
        if let Some(visual_idx) = self.list_state.selected() {
            if visual_idx < self.visible_map.len() {
                if let VisibleItem::Submodule(data_idx) = self.visible_map[visual_idx] {
                    if data_idx < self.items.len() {
                        let ghost before = self.items@;
                        let r = self.items[data_idx].data.handle_input(key, &mut self.mode, config);
                        assert(shape(self.items@) =~= shape(before));
                        return r;
                    }
                }
            }
        }
        None
    }

    /// Whether the dashboard takes `key` without a panic: moving needs rows
    /// (or no selection), Enter a selection among the rows, and a key that
    /// goes to a module must be one that the module takes.
    pub open spec fn key_ok(self, key: KeyEvent) -> bool {
        key.kind == KeyEventKind::Press ==> if self.mode == InterfaceMode::Normal {
            if is_insert_key(key.code) || key.code == KeyCode::Char('f') {
                true
            } else if key.code == KeyCode::Char(' ') || key.code == KeyCode::Backspace {
                self.nav_ok()
            } else if key.code == KeyCode::Enter {
                self.enter_ok()
            } else {
                self.dispatch_ok(key)
            }
        } else {
            self.dispatch_ok(key)
        }
    }

    /// How the dashboard answers a key (a key that is not a press does
    /// nothing). In normal mode `:`, `i` and `a` enter insert mode, Space and
    /// Backspace move through the rows, Enter opens a row, `f` toggles full
    /// screen, `/` hands the key to the selected module and enters insert
    /// mode, and any other key goes to the selected module. In insert mode
    /// every key goes to the selected module, and Esc then returns to normal
    /// mode.
    pub open spec fn event_post(
        pre: Interface,
        key: KeyEvent,
        post: Interface,
        config: Config,
        r: Option<LaunchRequest>,
    ) -> bool {
        if key.kind != KeyEventKind::Press {
            post == pre && r is None
        } else if pre.mode == InterfaceMode::Normal {
            if is_insert_key(key.code) {
                post == (Interface { mode: InterfaceMode::Insert, ..pre }) && r is None
            } else if key.code == KeyCode::Char('/') {
                match pre.target() {
                    Some(_) => post.mode == InterfaceMode::Insert && Interface::dispatched(
                        pre,
                        key,
                        Interface { mode: pre.dispatch_mode(key), ..post },
                        config,
                        r,
                    ),
                    None => post == pre && r is None,
                }
            } else if key.code == KeyCode::Char(' ') {
                Interface::next_post(pre, post) && r is None
            } else if key.code == KeyCode::Backspace {
                Interface::prev_post(pre, post) && r is None
            } else if key.code == KeyCode::Enter {
                Interface::enter_post(pre, post) && r is None
            } else if key.code == KeyCode::Char('f') {
                post == (Interface { fullscreen: !pre.fullscreen, ..pre }) && r is None
            } else {
                Interface::dispatched(pre, key, post, config, r)
            }
        } else if key.code == KeyCode::Esc {
            post.mode == InterfaceMode::Normal && Interface::dispatched(
                pre,
                key,
                Interface { mode: pre.dispatch_mode(key), ..post },
                config,
                r,
            )
        } else {
            Interface::dispatched(pre, key, post, config, r)
        }
    }

    /// Answers a key (see `event_post`); returns the program run that the
    /// selected module asked for, if any.
    pub fn event_handler(&mut self, key: KeyEvent, config: &Config) -> (r: Option<LaunchRequest>)
        requires
            old(self).key_ok(key),
        ensures
            Interface::event_post(*old(self), key, *final(self), *config, r),
            old(self).wf() ==> final(self).wf(),
    {
        if key.kind != KeyEventKind::Press {
            return None;
        }
        match self.mode {
            InterfaceMode::Normal => {
                let code = key.code;
                if code == KeyCode::Char(':') || code == KeyCode::Char('i') || code == KeyCode::Char('a') {
                    self.mode = InterfaceMode::Insert;
                    None
                } else if code == KeyCode::Char('/') {
                    let has_target = self.selected_target().is_some();
                    let r = self.dispatch_key(key, config);
                    if has_target {
                        self.mode = InterfaceMode::Insert;
                    }
                    r
                } else if code == KeyCode::Char(' ') {
                    self.next();
                    None
                } else if code == KeyCode::Backspace {
                    self.prev();
                    None
                } else if code == KeyCode::Enter {
                    self.handle_enter();
                    None
                } else if code == KeyCode::Char('f') {
                    self.fullscreen = !self.fullscreen;
                    None
                } else {
                    self.dispatch_key(key, config)
                }
            },
            InterfaceMode::Insert => {
                if key.code == KeyCode::Esc {
                    let r = self.dispatch_key(key, config);
                    self.mode = InterfaceMode::Normal;
                    r
                } else {
                    self.dispatch_key(key, config)
                }
            },
        }
    }
}

impl Interface {
    /// `post` is `pre` after passing mouse event `m` to the module under the
    /// selected row (nothing changes where no module is selected).
    pub open spec fn mouse_dispatched(
        pre: Interface,
        m: MouseEvent,
        post: Interface,
        config: Config,
        r: Option<LaunchRequest>,
    ) -> bool {
        match pre.target() {
            None => post == pre && r is None,
            Some(d) => {
                &&& post.items@.len() == pre.items@.len()
                &&& forall|i: int| 0 <= i < pre.items@.len() && i != d ==> #[trigger] post.items@[i] == pre.items@[i]
                &&& post.items@[d].interaction == pre.items@[d].interaction
                &&& post.items@[d].is_expanded == pre.items@[d].is_expanded
                &&& pre.items@[d].data.mouse_post(m, post.items@[d].data)
                &&& launch_view(r) == pre.items@[d].data.mouse_launch(m, post.items@[d].data, config)
                &&& post == (Interface { items: post.items, ..pre })
            },
        }
    }

    /// Whether the dashboard takes the mouse event `m` without a panic.
    pub open spec fn mouse_ok(self, m: MouseEvent) -> bool {
        if self.minor_area.spec_contains(m.column, m.row) {
            m.kind == MouseEventKind::ScrollUp || m.kind == MouseEventKind::ScrollDown ==> self.nav_ok()
        } else if self.major_area.spec_contains(m.column, m.row) {
            match self.target() {
                Some(d) => self.items@[d].data.mouse_ok(m),
                None => true,
            }
        } else {
            true
        }
    }

    /// How the dashboard answers a mouse event. Over the module list, a left
    /// click selects the row under the pointer (inside the border) and opens
    /// it as Enter does, and the wheel moves through the rows. Over the
    /// module view, the event goes to the selected module.
    pub open spec fn mouse_event_post(
        pre: Interface,
        m: MouseEvent,
        post: Interface,
        config: Config,
        r: Option<LaunchRequest>,
    ) -> bool {
        if pre.minor_area.spec_contains(m.column, m.row) {
            let rel = sat_sub(m.row as int, pre.minor_area.y + 1);
            &&& r is None
            &&& if m.kind == MouseEventKind::LeftDown {
                if rel < pre.visible_map@.len() {
                    let mid = with_interactions(
                        pre.items@,
                        hover_target(pre.visible_map@, pre.items@.len(), rel),
                    );
                    &&& post.visible_map@ == enter_visible(mid, pre.visible_map@, rel)
                    &&& post.items@ == enter_items(mid, pre.visible_map@, rel)
                    &&& post == (Interface {
                        items: post.items,
                        visible_map: post.visible_map,
                        list_state: pre.list_state.spec_select(Some(rel as usize)),
                        ..pre
                    })
                } else {
                    post == pre
                }
            } else if m.kind == MouseEventKind::ScrollUp {
                Interface::prev_post(pre, post)
            } else if m.kind == MouseEventKind::ScrollDown {
                Interface::next_post(pre, post)
            } else {
                post == pre
            }
        } else if pre.major_area.spec_contains(m.column, m.row) {
            Interface::mouse_dispatched(pre, m, post, config, r)
        } else {
            post == pre && r is None
        }
    }

    /// Answers a mouse event (see `mouse_event_post`); returns the program
    /// run that the selected module asked for, if any.
    pub fn mouse_handler(&mut self, mouse: MouseEvent, config: &Config) -> (r: Option<LaunchRequest>)
        requires
            old(self).mouse_ok(mouse),
        ensures
            Interface::mouse_event_post(*old(self), mouse, *final(self), *config, r),
            old(self).wf() ==> final(self).wf(),
    {
        let x = mouse.column;
        let y = mouse.row;
        if self.minor_area.contains(x, y) {
            let rel_y = y.saturating_sub(self.minor_area.y + 1) as usize;
            match mouse.kind {
                MouseEventKind::LeftDown => {
                    if rel_y < self.visible_map.len() {
                        self.list_state.select(Some(rel_y));
                        self.update_interactions(rel_y);
                        proof {
                            assert(shape(self.items@) =~= shape(old(self).items@));
                        }
                        self.handle_enter();
                    }
                },
                MouseEventKind::ScrollUp => self.prev(),
                MouseEventKind::ScrollDown => self.next(),
                MouseEventKind::Other => {},
            }
            None
        } else if self.major_area.contains(x, y) {
            if let Some(data_idx) = self.selected_target() {
                let ghost before = self.items@;
                let mode = self.mode;
                let r = self.items[data_idx].data.handle_mouse(mouse, mode, config);
                assert(shape(self.items@) =~= shape(before));
                r
            } else {
                None
            }
        } else {
            None
        }
    }
}

/// The text of row `j` of the module list: a header shows its category
/// after a down arrow (expanded) or a right arrow (collapsed); a module row
/// shows the module's name after a tree branch, the corner branch for the
/// last module of its category.
pub open spec fn row_label(items: Seq<ModuleItem>, visible: Seq<VisibleItem>, j: int) -> Seq<char> {
    match visible[j] {
        VisibleItem::Header(cat) => (if expanded(shape(items), cat) {
            "\u{25bc} "@
        } else {
            "\u{25b6} "@
        }) + category_label(cat),
        VisibleItem::Submodule(d) => {
            let ms = members(shape(items), items[d as int].data.spec_kind());
            (if ms.len() > 0 && ms.last() == d {
                "  \u{2514}\u{2500} "@
            } else {
                "  \u{251c}\u{2500} "@
            }) + items[d as int].data.spec_submodname()
        },
    }
}

/// The title of the module list, which tells the mode.
pub open spec fn list_title(mode: InterfaceMode) -> Seq<char> {
    match mode {
        InterfaceMode::Insert => "MODULES [I]"@,
        InterfaceMode::Normal => "MODULES [N]"@,
    }
}

impl Interface {
    /// Every module row names an existing item.
    pub open spec fn rows_in_range(self) -> bool {
        forall|j: int|
            0 <= j < self.visible_map@.len() ==> (#[trigger] self.visible_map@[j] matches VisibleItem::Submodule(
                d,
            ) ==> d < self.items@.len())
    }

    /// The texts of the module list's rows, in order.
    pub fn list_labels(&self) -> (v: Vec<String>)
        requires
            self.rows_in_range(),
        ensures
            v@.len() == self.visible_map@.len(),
            forall|j: int| 0 <= j < v@.len() ==> #[trigger] v@[j]@ == row_label(self.items@, self.visible_map@, j),
    {
        let n = self.visible_map.len();
        let mut v: Vec<String> = Vec::new();
        let mut j: usize = 0;
        while j < n
            invariant
                n == self.visible_map@.len(),
                self.rows_in_range(),
                j <= n,
                v@.len() == j,
                forall|k: int| 0 <= k < j ==> #[trigger] v@[k]@ == row_label(self.items@, self.visible_map@, k),
            decreases n - j,
        {
            let label = match self.visible_map[j] {
                VisibleItem::Header(cat) => {
                    let (_, is_expanded) = members_of(&self.items, cat);
                    let mut text = if is_expanded {
                        String::from_str("\u{25bc} ")
                    } else {
                        String::from_str("\u{25b6} ")
                    };
                    text.append(cat.as_str());
                    text
                },
                VisibleItem::Submodule(d) => {
                    assert(self.visible_map@[j as int] matches VisibleItem::Submodule(d));
                    let item = &self.items[d];
                    let (sub, _) = members_of(&self.items, item.data.kind());
                    let is_last = sub.len() > 0 && sub[sub.len() - 1] == d;
                    let mut text = if is_last {
                        String::from_str("  \u{2514}\u{2500} ")
                    } else {
                        String::from_str("  \u{251c}\u{2500} ")
                    };
                    text.append(item.data.submodname());
                    text
                },
            };
            v.push(label);
            j += 1;
        }
        v
    }

    /// The title of the module list.
    pub fn list_title(&self) -> (t: &'static str)
        ensures
            t@ == list_title(self.mode),
    {
        match self.mode {
            InterfaceMode::Insert => "MODULES [I]",
            InterfaceMode::Normal => "MODULES [N]",
        }
    }

    /// Records where the last frame drew the module list and the module view.
    pub fn set_areas(&mut self, minor: Rect, major: Rect)
        ensures
            *final(self) == (Interface { minor_area: minor, major_area: major, ..*old(self) }),
    {
        self.minor_area = minor;
        self.major_area = major;
    }

    /// Records the module list's scroll offset after a frame was drawn.
    pub fn set_list_offset(&mut self, offset: usize)
        ensures
            *final(self) == (Interface {
                list_state: ListState { offset, selected: old(self).list_state.selected },
                ..*old(self)
            }),
    {
        self.list_state.offset = offset;
    }
}

/// Space then Backspace (and Backspace then Space) come back to the row
/// they started from, for a selected row among `len` rows.
pub proof fn lemma_next_prev_inverse(sel: usize, len: nat)
    requires
        sel < len <= usize::MAX,
    ensures
        prev_index(Some(next_index(Some(sel), len)), len) == sel,
        next_index(Some(prev_index(Some(sel), len)), len) == sel,
{
}

/// Moving down one row and back up again restores the selection and leaves
/// exactly the selected row's module hovered.
pub proof fn law_next_then_prev(a: Interface, b: Interface, c: Interface)
    requires
        a.list_state.selected matches Some(i) && i < a.visible_map@.len(),
        a.visible_map@.len() <= usize::MAX,
        Interface::next_post(a, b),
        Interface::prev_post(b, c),
    ensures
        c.list_state.selected == a.list_state.selected,
        c.items@ == with_interactions(
            a.items@,
            hover_target(a.visible_map@, a.items@.len(), a.list_state.selected.unwrap() as int),
        ),
        Interface::same_frame(a, c),
{
    let i = a.list_state.selected.unwrap();
    lemma_next_prev_inverse(i, a.visible_map@.len());
    assert(c.items@ =~= with_interactions(
        a.items@,
        hover_target(a.visible_map@, a.items@.len(), i as int),
    ));
}

/// After any navigation, exactly the module under the selected row is
/// hovered and no module is marked selected.
pub proof fn law_single_hover(items: Seq<ModuleItem>, target: Option<int>, i: int)
    requires
        0 <= i < items.len(),
    ensures
        with_interactions(items, target)[i].interaction == Interaction::Hovered <==> target == Some(i),
        with_interactions(items, target)[i].interaction != Interaction::Selected,
{
}

proof fn lemma_toggle_twice(items: Seq<ModuleItem>, cat: ModuleCategory)
    requires
        uniform(shape(items)),
        members(shape(items), cat).len() > 0,
    ensures
        shape(entered(entered(items, VisibleItem::Header(cat)), VisibleItem::Header(cat))) == shape(items),
{
    let a = shape(items);
    let e1 = entered(items, VisibleItem::Header(cat));
    let e2 = entered(e1, VisibleItem::Header(cat));
    let b = shape(e1);
    lemma_entered_rows(items, cat);
    lemma_members_nonempty(a, cat);
    let k = choose|k: int| 0 <= k < a.len() && a[k].0 == cat;
    assert(b[k].0 == cat && b[k].1 == !expanded(a, cat));
    if expanded(a, cat) {
        assert forall|j: int| 0 <= j < b.len() && #[trigger] b[j].0 == cat implies !b[j].1 by {}
        assert(!expanded(b, cat));
        assert forall|j: int| 0 <= j < a.len() && #[trigger] a[j].0 == cat implies a[j].1 by {
            let w = choose|w: int| 0 <= w < a.len() && #[trigger] a[w].0 == cat && a[w].1;
            assert(a[w].0 == a[j].0);
        }
    } else {
        assert(b[k].1);
        assert(expanded(b, cat));
    }
    assert(shape(e2) =~= a);
}

proof fn lemma_members_nonempty(sh: Seq<(ModuleCategory, bool)>, cat: ModuleCategory)
    requires
        members(sh, cat).len() > 0,
    ensures
        exists|k: int| 0 <= k < sh.len() && sh[k].0 == cat,
    decreases sh.len(),
{
    if sh.last().0 != cat {
        lemma_members_nonempty(sh.drop_last(), cat);
        let k = choose|k: int| 0 <= k < sh.len() - 1 && sh.drop_last()[k].0 == cat;
        assert(sh[k].0 == cat);
    }
}

impl Interface {
    /// Exactly the item under the selected row is hovered, and every other
    /// item is idle.
    pub open spec fn hover_consistent(self) -> bool {
        forall|j: int|
            0 <= j < self.items@.len() ==> #[trigger] self.items@[j].interaction == if self.target() == Some(j) {
                Interaction::Hovered
            } else {
                Interaction::Idle
            }
    }

    /// `post` is `pre` after hovering row `idx` (see `handle_hover`).
    pub open spec fn hover_post(pre: Interface, idx: int, post: Interface) -> bool {
        if 0 <= idx < pre.visible_map@.len() {
            &&& post.list_state == pre.list_state.spec_select(Some(idx as usize))
            &&& post.items@ == with_interactions(pre.items@, hover_target(pre.visible_map@, pre.items@.len(), idx))
            &&& Interface::same_frame(pre, post)
        } else {
            post == pre
        }
    }
}

/// The freshly built dashboard has exactly the first row's module hovered.
pub proof fn law_fresh_hover(r: Interface, modules: Seq<Module>)
    requires
        r.list_state.selected == Some(0usize),
        r.items@ == with_interactions(fresh_items(modules), hover_target(r.visible_map@, modules.len(), 0)),
    ensures
        r.hover_consistent(),
{
}

/// Every move through the module list (Space, Backspace, Enter, hovering a
/// row, and a click or wheel step over the list) keeps exactly the module
/// under the selected row hovered and all others idle; so at most one module
/// is ever other than idle.
pub proof fn law_hover_invariant(a: Interface, b: Interface, m: MouseEvent, idx: usize, config: Config, r: Option<
    LaunchRequest,
>)
    requires
        a.hover_consistent(),
        ({
            ||| Interface::next_post(a, b)
            ||| Interface::prev_post(a, b)
            ||| Interface::enter_post(a, b)
            ||| Interface::hover_post(a, idx as int, b)
            ||| a.minor_area.spec_contains(m.column, m.row) && Interface::mouse_event_post(a, m, b, config, r)
        }),
    ensures
        b.hover_consistent(),
        forall|j: int, k: int|
            0 <= j < b.items@.len() && 0 <= k < b.items@.len() && #[trigger] b.items@[j].interaction
                != Interaction::Idle && #[trigger] b.items@[k].interaction != Interaction::Idle ==> j == k,
{
    if Interface::next_post(a, b) {
        let i = next_index(a.list_state.selected, a.visible_map@.len());
        lemma_hovered_consistent(b, a.items@, i);
    } else if Interface::prev_post(a, b) {
        let i = prev_index(a.list_state.selected, a.visible_map@.len());
        lemma_hovered_consistent(b, a.items@, i);
    } else if Interface::hover_post(a, idx as int, b) {
        if idx < a.visible_map@.len() {
            lemma_hovered_consistent(b, a.items@, idx);
        }
    } else if Interface::enter_post(a, b) {
        if let Some(s) = a.list_state.selected {
            lemma_hovered_consistent(b, entered(a.items@, a.visible_map@[s as int]), s);
        }
    } else {
        let rel = sat_sub(m.row as int, a.minor_area.y + 1);
        if m.kind == MouseEventKind::LeftDown && rel < a.visible_map@.len() {
            let mid = with_interactions(a.items@, hover_target(a.visible_map@, a.items@.len(), rel));
            lemma_hovered_consistent(b, entered(mid, a.visible_map@[rel]), rel as usize);
        }
    }
}

proof fn lemma_hovered_consistent(b: Interface, x: Seq<ModuleItem>, s: usize)
    requires
        b.list_state.selected == Some(s),
        b.items@ == with_interactions(x, hover_target(b.visible_map@, x.len(), s as int)),
    ensures
        b.hover_consistent(),
{
    assert(b.items@.len() == x.len());
}

/// Space, Backspace and Enter in normal mode are exactly a step down, a step
/// up and opening the selected row; they start nothing and stay in normal
/// mode.
pub proof fn law_navigation_keys(a: Interface, key: KeyEvent, b: Interface, config: Config, r: Option<LaunchRequest>)
    requires
        key.kind == KeyEventKind::Press,
        a.mode == InterfaceMode::Normal,
        Interface::event_post(a, key, b, config, r),
    ensures
        key.code == KeyCode::Char(' ') ==> Interface::next_post(a, b) && r is None && b.mode == InterfaceMode::Normal,
        key.code == KeyCode::Backspace ==> Interface::prev_post(a, b) && r is None && b.mode
            == InterfaceMode::Normal,
        key.code == KeyCode::Enter ==> Interface::enter_post(a, b) && r is None && b.mode == InterfaceMode::Normal,
{
}

/// A click on a row of the module list is hovering that row and then
/// pressing Enter (a click below the last row changes nothing); the wheel
/// over the list is Backspace (up) or Space (down). None of these starts a
/// program.
pub proof fn law_click_is_hover_then_enter(a: Interface, m: MouseEvent, b: Interface, config: Config, r: Option<
    LaunchRequest,
>)
    requires
        a.minor_area.spec_contains(m.column, m.row),
        Interface::mouse_event_post(a, m, b, config, r),
    ensures
        r is None,
        m.kind == MouseEventKind::LeftDown && sat_sub(m.row as int, a.minor_area.y + 1) < a.visible_map@.len()
            ==> forall|mid: Interface|
            #[trigger] Interface::hover_post(a, sat_sub(m.row as int, a.minor_area.y + 1), mid)
                ==> Interface::enter_post(mid, b),
        m.kind == MouseEventKind::LeftDown && sat_sub(m.row as int, a.minor_area.y + 1) >= a.visible_map@.len()
            ==> b == a,
        m.kind == MouseEventKind::ScrollUp ==> Interface::prev_post(a, b),
        m.kind == MouseEventKind::ScrollDown ==> Interface::next_post(a, b),
{
}

/// One Enter on a category header keeps the header selected in its place,
/// with every module idle.
pub proof fn law_header_enter_once(a: Interface, b: Interface)
    requires
        a.wf(),
        a.list_state.selected matches Some(h) && h < a.visible_map@.len() && a.visible_map@[h as int] is Header,
        Interface::enter_post(a, b),
    ensures
        b.list_state == a.list_state,
        b.visible_map@[a.list_state.selected.unwrap() as int] == a.visible_map@[a.list_state.selected.unwrap() as int],
        forall|j: int| 0 <= j < b.items@.len() ==> #[trigger] b.items@[j].interaction == Interaction::Idle,
{
    let h = a.list_state.selected.unwrap() as int;
    let cat = a.visible_map@[h]->Header_0;
    lemma_header_stays(a.items@, cat, h);
}

/// Enter twice on a category header restores the list: the category
/// expands and collapses again (or the other way round), and the header
/// keeps its place.
pub proof fn law_header_enter_twice(a: Interface, b: Interface, c: Interface)
    requires
        a.wf(),
        a.list_state.selected matches Some(h) && h < a.visible_map@.len() && a.visible_map@[h as int] is Header,
        Interface::enter_post(a, b),
        Interface::enter_post(b, c),
    ensures
        shape(c.items@) == shape(a.items@),
        c.visible_map@ == a.visible_map@,
        c.list_state == a.list_state,
{
    let h = a.list_state.selected.unwrap() as int;
    let cat = a.visible_map@[h]->Header_0;
    lemma_header_stays(a.items@, cat, h);
    let e1 = entered(a.items@, VisibleItem::Header(cat));
    assert(shape(b.items@) =~= shape(e1));
    lemma_entered_uniform(a.items@, cat);
    assert(b.visible_map@[h] == VisibleItem::Header(cat));
    let e2 = entered(b.items@, VisibleItem::Header(cat));
    assert(shape(e2) =~= shape(entered(e1, VisibleItem::Header(cat)))) by {
        let x = shape(b.items@);
        let y = shape(e1);
        assert(expanded(x, cat) == expanded(y, cat)) by {
            assert(x =~= y);
        }
    }
    lemma_rows_nonempty_members(a.items@, cat, h);
    lemma_toggle_twice(a.items@, cat);
    assert(shape(c.items@) =~= shape(e2));
}

proof fn lemma_rows_nonempty_members(items: Seq<ModuleItem>, cat: ModuleCategory, h: int)
    requires
        0 <= h < visible_rows(shape(items)).len(),
        visible_rows(shape(items))[h] == VisibleItem::Header(cat),
    ensures
        members(shape(items), cat).len() > 0,
{
    let a = shape(items);
    let pa = category_rows(a, ModuleCategory::Projects);
    let ta = category_rows(a, ModuleCategory::Tools);
    let ga = category_rows(a, ModuleCategory::Games);
    if h < pa.len() {
        lemma_rows_header(a, ModuleCategory::Projects, h);
    } else if h < pa.len() + ta.len() {
        assert(visible_rows(a)[h] == ta[h - pa.len()]);
        lemma_rows_header(a, ModuleCategory::Tools, h - pa.len());
    } else {
        assert(visible_rows(a)[h] == ga[h - pa.len() - ta.len()]);
        lemma_rows_header(a, ModuleCategory::Games, h - pa.len() - ta.len());
    }
}

impl Interface {
    /// Lays the dashboard out over `workspace` and records the areas: full
    /// screen gives the whole workspace to the module view; otherwise the
    /// module list takes the top 30% of the left 20%, the side panel the
    /// rest of that column, and the module view the remaining width.
    /// Returns the module list's, the module view's and the side panel's areas.
    pub fn arrange(&mut self, workspace: Rect) -> (r: (Rect, Rect, Rect))
        ensures
            arranged(*old(self), *final(self), workspace, r),
    {
        if self.fullscreen {
            self.major_area = workspace;
            self.minor_area = Rect::default();
            (Rect::default(), workspace, Rect::default())
        } else {
            let columns = split(Direction::Horizontal, &pair(Constraint::Percentage(20), Constraint::Fill(1)), workspace);
            let minor = columns[0];
            let major = columns[1];
            let rows = split(Direction::Vertical, &pair(Constraint::Percentage(30), Constraint::Fill(1)), minor);
            let list_area = rows[0];
            let sidepanel = rows[1];
            self.minor_area = list_area;
            self.major_area = major;
            (list_area, major, sidepanel)
        }
    }
}

/// `post` is `pre` laid out over `workspace`, `r` the areas drawn into.
pub open spec fn arranged(pre: Interface, post: Interface, workspace: Rect, r: (Rect, Rect, Rect)) -> bool {
    if pre.fullscreen {
        &&& r == (Rect::default(), workspace, Rect::default())
        &&& post == (Interface { minor_area: Rect::default(), major_area: workspace, ..pre })
    } else {
        let columns = layout_split(Direction::Horizontal, seq![Constraint::Percentage(20), Constraint::Fill(1)], workspace);
        let rows = layout_split(Direction::Vertical, seq![Constraint::Percentage(30), Constraint::Fill(1)], columns[0]);
        &&& r == (rows[0], columns[1], rows[1])
        &&& post == (Interface { minor_area: rows[0], major_area: columns[1], ..pre })
    }
}

impl Interface {
    fn accepts_dispatch(&self, key: KeyEvent) -> (b: bool)
        ensures
            b == self.dispatch_ok(key),
    {
        match self.selected_target() {
            Some(d) => self.items[d].data.accepts_input(key, self.mode),
            None => true,
        }
    }

    /// Whether the dashboard takes `key` (see `key_ok`).
    pub fn accepts_key(&self, key: KeyEvent) -> (b: bool)
        ensures
            b == self.key_ok(key),
    {
        if key.kind != KeyEventKind::Press {
            return true;
        }
        let nav = self.visible_map.len() > 0 || self.list_state.selected().is_none();
        if self.mode == InterfaceMode::Normal {
            let code = key.code;
            if code == KeyCode::Char(':') || code == KeyCode::Char('i') || code == KeyCode::Char('a') || code
                == KeyCode::Char('f') {
                true
            } else if code == KeyCode::Char(' ') || code == KeyCode::Backspace {
                nav
            } else if code == KeyCode::Enter {
                match self.list_state.selected() {
                    Some(i) => i < self.visible_map.len(),
                    None => true,
                }
            } else {
                self.accepts_dispatch(key)
            }
        } else {
            self.accepts_dispatch(key)
        }
    }

    /// Whether the dashboard takes the mouse event `m` (see `mouse_ok`).
    pub fn accepts_mouse(&self, m: MouseEvent) -> (b: bool)
        ensures
            b == self.mouse_ok(m),
    {
        if self.minor_area.contains(m.column, m.row) {
            if m.kind == MouseEventKind::ScrollUp || m.kind == MouseEventKind::ScrollDown {
                self.visible_map.len() > 0 || self.list_state.selected().is_none()
            } else {
                true
            }
        } else if self.major_area.contains(m.column, m.row) {
            match self.selected_target() {
                Some(d) => self.items[d].data.accepts_mouse(m),
                None => true,
            }
        } else {
            true
        }
    }
}

/// In insert mode, Esc first reaches the module under the selected row and
/// then returns the dashboard to normal mode: with the wallwatch module's
/// fuzzy finder open, the finder closes (nothing else in the module
/// changes), no program is started, and the other modules and the list stay
/// as they were.
pub proof fn law_insert_esc_reaches_the_module(
    a: Interface,
    key: KeyEvent,
    b: Interface,
    config: Config,
    r: Option<LaunchRequest>,
    d: int,
    w: Wallwatch,
)
    requires
        key.kind == KeyEventKind::Press,
        key.code == KeyCode::Esc,
        a.mode == InterfaceMode::Insert,
        a.target() == Some(d),
        a.items@[d].data == Module::Project(Project::Wallwatch(w)),
        w.states.show_fzf,
        Interface::event_post(a, key, b, config, r),
    ensures
        b.mode == InterfaceMode::Normal,
        r is None,
        b.items@.len() == a.items@.len(),
        match b.items@[d].data {
            Module::Project(Project::Wallwatch(v)) => v.name == w.name && v.states == (WallwatchStates {
                show_fzf: false,
                ..w.states
            }),
            _ => false,
        },
        forall|i: int| 0 <= i < a.items@.len() && i != d ==> #[trigger] b.items@[i] == a.items@[i],
        b.list_state == a.list_state,
        b.visible_map == a.visible_map,
{
    let post = Interface { mode: a.dispatch_mode(key), ..b };
    assert(Interface::dispatched(a, key, post, config, r));
    assert(post.items@ == b.items@);
}

} // verus!
