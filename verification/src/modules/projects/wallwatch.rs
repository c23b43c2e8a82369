use vstd::prelude::*;
use crate::config::Config;
use crate::input::{KeyCode, KeyEvent, ListState, MouseEvent, MouseEventKind, Rect, sat_sub};
use vstd::utf8::encode_utf8;
use crate::color::{Color, hex_color, hex_rgb, parse_hex_u32, parse_hex_u32_str, rgb_channels, rgb_of};
use vstd::utf8::{decode_utf8, is_char_boundary, encode_utf8_decode_utf8};
use vstd::string::StringSliceAdditionalSpecFns;
use crate::layout::{Constraint, Direction, layout_split, pair, split};
use crate::modules::interface::InterfaceMode;
use crate::modules::ModuleCategory;
use crate::modules::projects::backend::{ProjectDefinition, listed, name_listed, running_process_names};
use crate::text::{
    ascii_lower, ascii_lower_char, chars_le, clear_string, find_str, first_occurrence_from,
    lemma_first_occurrence_in_range, replace_str, replaced, str_eq, to_uppercase, uppercase, contains_str, is_substring, join_path, lemma_chars_le_total,
    lemma_chars_le_trans, lowercase, path_join, pop_char, push_char, str_le, to_lowercase, trim,
    trimmed,
};

verus! {

broadcast use vstd::seq_lib::group_to_multiset_ensures;

/// Which pane of the wallwatch module has focus.
#[derive(Debug, PartialEq, Eq, Clone, Copy, Structural)]
pub enum WallwatchView {
    Overview,
    Palette,
}

/// The theming state that the wallwatch registry records.
pub struct RegistryState {
    pub is_dark: bool,
    pub variant: String,
}

/// One wallpaper of the registry.
pub struct WallpaperItem {
    pub filename: String,
    pub relative_path: String,
    pub seed_argb: String,
}

impl Clone for WallpaperItem {
    fn clone(&self) -> (r: Self)
        ensures
            r == *self,
    {
        WallpaperItem {
            filename: self.filename.clone(),
            relative_path: self.relative_path.clone(),
            seed_argb: self.seed_argb.clone(),
        }
    }
}

/// A wallwatch registry: its state and its wallpapers by key.
pub struct RegistryData {
    pub state: RegistryState,
    pub wallpapers: Vec<(String, WallpaperItem)>,
}

/// A scheme file written by wallwatch.
pub struct SchemeData {
    pub filename: String,
    pub theme: String,
    pub variant: String,
    pub hash: String,
    pub colors: Vec<(String, String)>,
}

/// Everything the wallwatch module remembers between events.
pub struct WallwatchStates {
    pub palette_state: ListState,
    pub input_buffer: String,
    pub cursor_position: usize,
    pub current_view: WallwatchView,
    pub wallpaper_list_state: ListState,
    pub wallpapers: Vec<(String, WallpaperItem)>,
    pub is_dark: bool,
    pub variant_override: Option<String>,
    pub header_area: Rect,
    pub wallpaper_list_area: Rect,
    pub palette_list_area: Rect,
    pub control_panel_area: Rect,
    pub show_fzf: bool,
    pub fzf_query: String,
    pub fzf_matches: Vec<(usize, String, WallpaperItem)>,
    pub fzf_list_state: ListState,
}

/// The wallwatch module: browse the wallpaper registry and have wallwatch
/// theme the desktop after the chosen one.
pub struct Wallwatch {
    pub name: String,
    pub states: WallwatchStates,
}

/// A program to start, with its arguments.
pub struct LaunchRequest {
    pub program: String,
    pub args: Vec<String>,
}

/// The program and the arguments of a launch request, as character sequences.
pub open spec fn launch_view(r: Option<LaunchRequest>) -> Option<(Seq<char>, Seq<Seq<char>>)> {
    match r {
        Some(l) => Some((l.program@, l.args@.map_values(|a: String| a@))),
        None => None,
    }
}

/// The wallwatch run that applies wallpaper `idx`: `-w <path> -V <variant>`,
/// and `-l` for a light scheme; none where there is no such wallpaper.
pub open spec fn launch_spec(states: WallwatchStates, idx: int, config: Config) -> Option<
    (Seq<char>, Seq<Seq<char>>),
> {
    if 0 <= idx < states.wallpapers@.len() {
        let path = path_join(config.wallpaper_dir@, states.wallpapers@[idx].1.relative_path@);
        let base = seq!["-w"@, path, "-V"@, trimmed(config.variant@)];
        let args = if states.is_dark {
            base
        } else {
            base.push("-l"@)
        };
        Some((trimmed(config.wallwbin@), args))
    } else {
        None
    }
}

/// Wallpapers in order of their file names (`String` ordering).
pub open spec fn sorted_by_filename(s: Seq<(String, WallpaperItem)>) -> bool {
    forall|i: int, j: int|
        0 <= i < j < s.len() ==> chars_le(#[trigger] s[i].1.filename@, #[trigger] s[j].1.filename@)
}

/// The wallpapers of `s` whose file name is `k`, in order.
pub open spec fn named(s: Seq<(String, WallpaperItem)>, k: Seq<char>) -> Seq<(String, WallpaperItem)>
    decreases s.len(),
{
    if s.len() == 0 {
        seq![]
    } else {
        let rest = named(s.drop_last(), k);
        if s.last().1.filename@ == k {
            rest.push(s.last())
        } else {
            rest
        }
    }
}

proof fn lemma_named_concat(a: Seq<(String, WallpaperItem)>, b: Seq<(String, WallpaperItem)>, k: Seq<char>)
    ensures
        named(a + b, k) == named(a, k) + named(b, k),
    decreases b.len(),
{
    if b.len() == 0 {
        assert(a + b =~= a);
        assert(named(a, k) + named(b, k) =~= named(a, k));
    } else {
        lemma_named_concat(a, b.drop_last(), k);
        assert((a + b).drop_last() =~= a + b.drop_last());
        assert((a + b).last() == b.last());
        if b.last().1.filename@ == k {
            assert(named(a, k) + named(b.drop_last(), k).push(b.last()) =~= (named(a, k) + named(
                b.drop_last(),
                k,
            )).push(b.last()));
        }
    }
}

proof fn lemma_named_none(s: Seq<(String, WallpaperItem)>, k: Seq<char>)
    requires
        forall|j: int| 0 <= j < s.len() ==> (#[trigger] s[j]).1.filename@ != k,
    ensures
        named(s, k) == Seq::<(String, WallpaperItem)>::empty(),
    decreases s.len(),
{
    if s.len() > 0 {
        lemma_named_none(s.drop_last(), k);
    }
}

proof fn lemma_chars_le_refl(a: Seq<char>)
    ensures
        chars_le(a, a),
    decreases a.len(),
{
    if a.len() > 0 {
        lemma_chars_le_refl(a.drop_first());
    }
}

fn insert_by_filename(out: &mut Vec<(String, WallpaperItem)>, x: (String, WallpaperItem))
    requires
        sorted_by_filename(old(out)@),
    ensures
        sorted_by_filename(final(out)@),
        final(out)@.to_multiset() == old(out)@.to_multiset().insert(x),
        forall|k: Seq<char>| #[trigger] named(final(out)@, k) == named(old(out)@.push(x), k),
{
    let n = out.len();
    let mut p: usize = 0;
    while p < n && str_le(out[p].1.filename.as_str(), x.1.filename.as_str())
        invariant
            n == out@.len(),
            p <= n,
            forall|j: int| 0 <= j < p ==> chars_le(#[trigger] out@[j].1.filename@, x.1.filename@),
        decreases n - p,
    {
        p += 1;
    }
    let ghost before = out@;
    proof {
        if p < n {
            lemma_chars_le_total(before[p as int].1.filename@, x.1.filename@);
        }
    }
    out.insert(p, x);
    proof {
        let s = out@;
        assert(s =~= before.insert(p as int, x));
        assert forall|i: int, j: int| 0 <= i < j < s.len() implies chars_le(
            #[trigger] s[i].1.filename@,
            #[trigger] s[j].1.filename@,
        ) by {
            if i < p && j == p {
            } else if i < p && j > p {
                if p < n {
                    lemma_chars_le_trans(before[i].1.filename@, x.1.filename@, before[p as int].1.filename@);
                    if j - 1 > p {
                        lemma_chars_le_trans(before[i].1.filename@, before[p as int].1.filename@, before[j - 1].1.filename@);
                    }
                }
            } else if i == p && j > p {
                if j - 1 > p {
                    lemma_chars_le_trans(x.1.filename@, before[p as int].1.filename@, before[j - 1].1.filename@);
                }
            } else if i > p {
                assert(s[i] == before[i - 1]);
                assert(s[j] == before[j - 1]);
            }
        }
        let head = before.take(p as int);
        let tail = before.skip(p as int);
        assert(before =~= head + tail);
        assert(s =~= head + seq![x] + tail);
        assert(before.push(x) =~= head + tail + seq![x]);
        assert forall|j: int| 0 <= j < tail.len() implies (#[trigger] tail[j]).1.filename@ != x.1.filename@ by {
            if tail[j].1.filename@ == x.1.filename@ {
                if j > 0 {
                    assert(chars_le(before[p as int].1.filename@, before[p + j].1.filename@));
                } else {
                    lemma_chars_le_refl(x.1.filename@);
                }
            }
        }
        assert forall|k: Seq<char>| #[trigger] named(s, k) == named(before.push(x), k) by {
            lemma_named_concat(head + seq![x], tail, k);
            lemma_named_concat(head, seq![x], k);
            lemma_named_concat(head + tail, seq![x], k);
            lemma_named_concat(head, tail, k);
            assert(seq![x].drop_last() =~= Seq::<(String, WallpaperItem)>::empty());
            assert(seq![x].last() == x);
            assert(named(Seq::<(String, WallpaperItem)>::empty(), k) =~= Seq::<(String, WallpaperItem)>::empty());
            if k == x.1.filename@ {
                lemma_named_none(tail, k);
            } else {
                assert(named(seq![x], k) =~= Seq::<(String, WallpaperItem)>::empty());
            }
        }
    }
}

/// Sorts wallpapers by file name, keeping equal names in their given order.
pub fn sort_by_filename(v: Vec<(String, WallpaperItem)>) -> (r: Vec<(String, WallpaperItem)>)
    ensures
        sorted_by_filename(r@),
        r@.to_multiset() == v@.to_multiset(),
        forall|k: Seq<char>| #[trigger] named(r@, k) == named(v@, k),
{
    let mut input = v;
    let mut out: Vec<(String, WallpaperItem)> = Vec::new();
    let ghost orig = input@;
    let ghost mut k: int = 0;
    assert(orig.skip(0) =~= orig);
    assert(orig.take(0) =~= Seq::<(String, WallpaperItem)>::empty());
    while input.len() > 0
        invariant
            0 <= k <= orig.len(),
            input@ == orig.skip(k),
            sorted_by_filename(out@),
            out@.to_multiset() == orig.take(k).to_multiset(),
            forall|key: Seq<char>| #[trigger] named(out@, key) == named(orig.take(k), key),
        decreases input@.len(),
    {
        let x = input.remove(0);
        let ghost prev = out@;
        proof {
            assert(orig.take(k + 1) =~= orig.take(k).push(x));
            assert(input@ =~= orig.skip(k + 1));
        }
        insert_by_filename(&mut out, x);
        proof {
            assert forall|key: Seq<char>| #[trigger] named(out@, key) == named(orig.take(k + 1), key) by {
                assert(named(out@, key) == named(prev.push(x), key));
                assert(named(prev, key) == named(orig.take(k), key));
                assert(prev.push(x).drop_last() =~= prev);
                assert(prev.push(x).last() == x);
                assert(orig.take(k + 1).drop_last() =~= orig.take(k));
                assert(orig.take(k + 1).last() == x);
            }
            k = k + 1;
        }
    }
    assert(orig.take(k) =~= orig);
    out
}

/// Whether the fuzzy finder lists a wallpaper for the query `q`: every
/// wallpaper for an empty query, else those whose lowercased relative path
/// contains the lowercased query.
pub open spec fn fzf_hit(item: WallpaperItem, q: Seq<char>) -> bool {
    q.len() == 0 || is_substring(lowercase(q), lowercase(item.relative_path@))
}

/// The fuzzy finder's results for the query `q`: each listed
/// wallpaper with its position, in the order of `w`.
pub open spec fn fzf_matches_of(w: Seq<(String, WallpaperItem)>, q: Seq<char>) -> Seq<
    (usize, String, WallpaperItem),
>
    decreases w.len(),
{
    if w.len() == 0 {
        seq![]
    } else {
        let rest = fzf_matches_of(w.drop_last(), q);
        if fzf_hit(w.last().1, q) {
            rest.push(((w.len() - 1) as usize, w.last().0, w.last().1))
        } else {
            rest
        }
    }
}

/// The list state after the result list changed to `m` rows: the selection
/// is kept where it is still a row, moved to the last row where it is past
/// the end, and cleared where there are no rows.
pub open spec fn clamp_selection(ls: ListState, m: nat) -> ListState {
    let cur = match ls.selected {
        Some(s) => s,
        None => 0,
    };
    ls.spec_select(
        if m == 0 {
            None
        } else if cur >= m {
            Some((m - 1) as usize)
        } else {
            Some(cur)
        },
    )
}

/// The fuzzy finder after its query changed: results recomputed, selection
/// clamped to them, nothing else touched.
pub open spec fn fzf_updated(s: WallwatchStates) -> WallwatchStates {
    let m = fzf_matches_of(s.wallpapers@, s.fzf_query@);
    WallwatchStates {
        fzf_list_state: clamp_selection(s.fzf_list_state, m.len()),
        ..s
    }
}

/// Recomputes the fuzzy finder's results for its current query and keeps
/// its selection on a result.
pub fn fzf_match_update(states: &mut WallwatchStates)
    ensures
        final(states).fzf_matches@ == fzf_matches_of(old(states).wallpapers@, old(states).fzf_query@),
        *final(states) == (WallwatchStates { fzf_matches: final(states).fzf_matches, ..fzf_updated(*old(states)) }),
{
    let query = to_lowercase(states.fzf_query.as_str());
    let ghost q = states.fzf_query@;
    let ghost w = states.wallpapers@;
    let n = states.wallpapers.len();
    let mut matches: Vec<(usize, String, WallpaperItem)> = Vec::new();
    let mut i: usize = 0;
    assert(w.take(0) =~= Seq::<(String, WallpaperItem)>::empty());
    while i < n
        invariant
            n == w.len(),
            w == states.wallpapers@,
            q == states.fzf_query@,
            query@ == lowercase(q),
            query@.len() == 0 <==> q.len() == 0,
            i <= n,
            matches@ == fzf_matches_of(w.take(i as int), q),
        decreases n - i,
    {
        let hit = if query.as_str().is_empty() {
            true
        } else {
            let path = to_lowercase(states.wallpapers[i].1.relative_path.as_str());
            contains_str(path.as_str(), query.as_str())
        };
        assert(w.take(i + 1).drop_last() =~= w.take(i as int));
        assert(w.take(i + 1).last() == w[i as int]);
        if hit {
            let key = states.wallpapers[i].0.clone();
            let item = states.wallpapers[i].1.clone();
            matches.push((i, key, item));
        }
        i += 1;
    }
    assert(w.take(n as int) =~= w);
    let m = matches.len();
    let current_sel = match states.fzf_list_state.selected() {
        Some(s) => s,
        None => 0,
    };
    states.fzf_matches = matches;
    if m == 0 {
        states.fzf_list_state.select(None);
    } else if current_sel >= m {
        states.fzf_list_state.select(Some(m - 1));
    } else {
        states.fzf_list_state.select(Some(current_sel));
    }
}

/// The wallpaper list state after scrolling one row forward or back, with
/// wrap-around; unchanged when there are no wallpapers.
pub open spec fn scrolled(ls: ListState, len: nat, forward: bool) -> ListState {
    if len == 0 {
        ls
    } else {
        let cur = match ls.selected {
            Some(s) => s as int,
            None => 0,
        };
        let next = if forward {
            (cur + 1) % (len as int)
        } else if cur == 0 {
            len - 1
        } else {
            cur - 1
        };
        ls.spec_select(Some(next as usize))
    }
}

/// Whether scrolling forward would overflow the selected index.
pub open spec fn scroll_overflows(ls: ListState, forward: bool) -> bool {
    forward && ls.selected == Some(usize::MAX)
}

impl Wallwatch {
    /// The wallwatch module over a registry: the first registry of a list,
    /// or a single registry where the file does not hold a list
    /// (`registry_single` is consulted only when `registry_list` is `None`).
    /// Without a registry, the list is empty and the scheme dark. The
    /// wallpapers are sorted by file name and the first one is selected.
    pub fn new(registry_list: Option<Vec<RegistryData>>, registry_single: Option<RegistryData>) -> (w: Wallwatch)
        ensures
            w.name@ == "Wallwatch"@,
            ({
                let chosen = match registry_list {
                    Some(l) => if l@.len() > 0 {
                        Some(l@[0])
                    } else {
                        None
                    },
                    None => registry_single,
                };
                &&& match chosen {
                    Some(r) => {
                        &&& w.states.is_dark == r.state.is_dark
                        &&& w.states.variant_override == Some(r.state.variant)
                        &&& w.states.wallpapers@.to_multiset() == r.wallpapers@.to_multiset()
                        &&& forall|k: Seq<char>| #[trigger] named(w.states.wallpapers@, k) == named(r.wallpapers@, k)
                    },
                    None => {
                        &&& w.states.is_dark
                        &&& w.states.variant_override is None
                        &&& w.states.wallpapers@.len() == 0
                    },
                }
            }),
            sorted_by_filename(w.states.wallpapers@),
            w.states.wallpaper_list_state == (ListState {
                offset: 0,
                selected: if w.states.wallpapers@.len() > 0 { Some(0usize) } else { None },
            }),
            w.states.palette_state == (ListState { offset: 0, selected: Some(0) }),
            w.states.input_buffer@.len() == 0,
            w.states.cursor_position == 0,
            w.states.current_view == WallwatchView::Overview,
            w.states.header_area == Rect::default(),
            w.states.wallpaper_list_area == Rect::default(),
            w.states.palette_list_area == Rect::default(),
            w.states.control_panel_area == Rect::default(),
            !w.states.show_fzf,
            w.states.fzf_query@.len() == 0,
            w.states.fzf_matches@.len() == 0,
            w.states.fzf_list_state == (ListState { offset: 0, selected: Some(0) }),
    {
        let mut palette_state = ListState::default();
        palette_state.select(Some(0));
        let mut wallpaper_list_state = ListState::default();
        let chosen = match registry_list {
            Some(l) => {
                let mut l = l;
                if l.len() > 0 {
                    Some(l.swap_remove(0))
                } else {
                    None
                }
            },
            None => registry_single,
        };
        assert(chosen == match registry_list {
            Some(l) => if l@.len() > 0 {
                Some(l@[0])
            } else {
                None
            },
            None => registry_single,
        });
        let (wallpapers, is_dark, variant_override) = match chosen {
            Some(r) => (r.wallpapers, r.state.is_dark, Some(r.state.variant)),
            None => (Vec::new(), true, None),
        };
        let ghost unsorted = wallpapers@;
        let wallpapers = sort_by_filename(wallpapers);
        assert(wallpapers@.to_multiset().len() == unsorted.to_multiset().len());
        if wallpapers.len() > 0 {
            wallpaper_list_state.select(Some(0));
        }
        Wallwatch {
            name: String::from_str("Wallwatch"),
            states: WallwatchStates {
                palette_state,
                wallpaper_list_state,
                wallpapers,
                is_dark,
                variant_override,
                input_buffer: String::new(),
                cursor_position: 0,
                current_view: WallwatchView::Overview,
                header_area: Rect::default(),
                wallpaper_list_area: Rect::default(),
                palette_list_area: Rect::default(),
                control_panel_area: Rect::default(),
                show_fzf: false,
                fzf_query: String::new(),
                fzf_matches: Vec::new(),
                fzf_list_state: ListState::default().with_selected(Some(0)),
            },
        }
    }

    /// The wallwatch run that applies wallpaper `idx`, if there is one.
    pub fn wallwatch_trigger(&self, idx: usize, config: &Config) -> (r: Option<LaunchRequest>)
        ensures
            launch_view(r) == launch_spec(self.states, idx as int, *config),
    {
        if idx >= self.states.wallpapers.len() {
            return None;
        }
        let path = join_path(config.wallpaper_dir.as_str(), self.states.wallpapers[idx].1.relative_path.as_str());
        let variant = trim(config.variant.as_str());
        let mut args: Vec<String> = Vec::new();
        args.push(String::from_str("-w"));
        args.push(path);
        args.push(String::from_str("-V"));
        args.push(String::from_str(variant));
        if !self.states.is_dark {
            args.push(String::from_str("-l"));
        }
        let program = String::from_str(trim(config.wallwbin.as_str()));
        let r = LaunchRequest { program, args };
        proof {
            let expected = launch_spec(self.states, idx as int, *config);
            let (_, got_args) = launch_view(Some(r)).unwrap();
            let (_, want_args) = expected.unwrap();
            assert(got_args =~= want_args);
        }
        Some(r)
    }

    /// Moves the wallpaper selection one row forward or back, wrapping around.
    pub fn scroll_list(&mut self, forward: bool)
        requires
            old(self).states.wallpapers@.len() > 0 ==> !scroll_overflows(old(self).states.wallpaper_list_state, forward),
        ensures
            *final(self) == (Wallwatch {
                states: WallwatchStates {
                    wallpaper_list_state: scrolled(
                        old(self).states.wallpaper_list_state,
                        old(self).states.wallpapers@.len(),
                        forward,
                    ),
                    ..old(self).states
                },
                ..*old(self)
            }),
    {
        let len = self.states.wallpapers.len();
        if len == 0 {
            return;
        }
        let current = match self.states.wallpaper_list_state.selected() {
            Some(s) => s,
            None => 0,
        };
        let next = if forward {
            (current + 1) % len
        } else {
            if current == 0 {
                len - 1
            } else {
                current - 1
            }
        };
        self.states.wallpaper_list_state.select(Some(next));
    }
}

/// The selected row of a list, or the first where none is selected.
pub open spec fn sel_or_zero(ls: ListState) -> usize {
    match ls.selected {
        Some(s) => s,
        None => 0,
    }
}

/// Whether a key jumps to the overview pane.
pub open spec fn is_overview_key(k: KeyCode) -> bool {
    k == KeyCode::Char('1') || k == KeyCode::Char('o') || k == KeyCode::Char('O')
}

/// Whether a key jumps to the palette pane.
pub open spec fn is_palette_key(k: KeyCode) -> bool {
    k == KeyCode::Char('2') || k == KeyCode::Char('p') || k == KeyCode::Char('P')
}

/// Whether a key moves the wallpaper selection down.
pub open spec fn is_down_key(k: KeyCode) -> bool {
    k == KeyCode::Down || k == KeyCode::Char('j')
}

/// Whether a key moves the wallpaper selection up.
pub open spec fn is_up_key(k: KeyCode) -> bool {
    k == KeyCode::Up || k == KeyCode::Char('k')
}

impl Wallwatch {
    /// Whether `handle_input` takes `key` in `mode` without an overflow of the
    /// selection or of the cursor (the cases where the arithmetic would panic).
    pub open spec fn input_ok(self, key: KeyCode, mode: InterfaceMode) -> bool {
        let s = self.states;
        if s.show_fzf {
            key == KeyCode::Down && s.fzf_matches@.len() > 0 ==> sel_or_zero(s.fzf_list_state) < usize::MAX
        } else if mode == InterfaceMode::Normal {
            is_down_key(key) && s.current_view == WallwatchView::Overview && s.wallpapers@.len() > 0
                ==> !scroll_overflows(s.wallpaper_list_state, true)
        } else {
            &&& (key is Char ==> s.cursor_position < usize::MAX)
            &&& (key == KeyCode::Backspace ==> s.cursor_position > 0)
        }
    }

    /// The wallpaper that a key applies, if any: the fuzzy finder's pick on
    /// Enter; the newly selected wallpaper after moving the selection in the
    /// overview; the selected one after toggling light/dark in the overview.
    pub open spec fn input_trigger(self, key: KeyCode, mode: InterfaceMode) -> Option<usize> {
        let s = self.states;
        if s.show_fzf {
            if key == KeyCode::Enter {
                match s.fzf_list_state.selected {
                    Some(sel) => if sel < s.fzf_matches@.len() {
                        Some(s.fzf_matches@[sel as int].0)
                    } else {
                        None
                    },
                    None => None,
                }
            } else {
                None
            }
        } else if mode == InterfaceMode::Normal && s.current_view == WallwatchView::Overview {
            if (is_down_key(key) || is_up_key(key)) && s.wallpapers@.len() > 0 {
                scrolled(s.wallpaper_list_state, s.wallpapers@.len(), is_down_key(key)).selected
            } else if key == KeyCode::Char('t') {
                s.wallpaper_list_state.selected
            } else {
                None
            }
        } else {
            None
        }
    }

    /// The interface mode after a key: picking in the fuzzy finder returns to
    /// normal mode; every other key leaves the mode.
    pub open spec fn input_mode(self, key: KeyCode, mode: InterfaceMode) -> InterfaceMode {
        if self.states.show_fzf && key == KeyCode::Enter && self.states.fzf_list_state.selected is Some {
            InterfaceMode::Normal
        } else {
            mode
        }
    }

    /// How a key changes the module and the interface mode.
    pub open spec fn input_post(
        self,
        key: KeyCode,
        mode: InterfaceMode,
        post: Wallwatch,
        post_mode: InterfaceMode,
    ) -> bool {
        let s = self.states;
        let t = post.states;
        &&& post.name == self.name
        &&& if s.show_fzf {
            let m = s.fzf_matches@.len();
            let cur = sel_or_zero(s.fzf_list_state) as int;
            if key == KeyCode::Esc {
                post_mode == mode && t == (WallwatchStates { show_fzf: false, ..s })
            } else if key == KeyCode::Down {
                post_mode == mode && t == (WallwatchStates {
                    fzf_list_state: if m > 0 {
                        s.fzf_list_state.spec_select(Some(((cur + 1) % (m as int)) as usize))
                    } else {
                        s.fzf_list_state
                    },
                    ..s
                })
            } else if key == KeyCode::Up {
                post_mode == mode && t == (WallwatchStates {
                    fzf_list_state: if m > 0 {
                        s.fzf_list_state.spec_select(
                            Some(
                                if cur == 0 {
                                    (m - 1) as usize
                                } else {
                                    (cur - 1) as usize
                                },
                            ),
                        )
                    } else {
                        s.fzf_list_state
                    },
                    ..s
                })
            } else if key is Char || key == KeyCode::Backspace {
                &&& post_mode == mode
                &&& t.fzf_query@ == match key {
                    KeyCode::Char(c) => s.fzf_query@.push(c),
                    _ => if s.fzf_query@.len() > 0 {
                        s.fzf_query@.drop_last()
                    } else {
                        s.fzf_query@
                    },
                }
                &&& t.fzf_matches@ == fzf_matches_of(s.wallpapers@, t.fzf_query@)
                &&& t == (WallwatchStates {
                    fzf_query: t.fzf_query,
                    fzf_matches: t.fzf_matches,
                    fzf_list_state: clamp_selection(s.fzf_list_state, t.fzf_matches@.len()),
                    ..s
                })
            } else if key == KeyCode::Enter {
                match s.fzf_list_state.selected {
                    Some(sel) => {
                        &&& post_mode == InterfaceMode::Normal
                        &&& t == (WallwatchStates {
                            show_fzf: false,
                            wallpaper_list_state: if sel < m {
                                s.wallpaper_list_state.spec_select(Some(s.fzf_matches@[sel as int].0))
                            } else {
                                s.wallpaper_list_state
                            },
                            ..s
                        })
                    },
                    None => post_mode == mode && t == s,
                }
            } else {
                post_mode == mode && t == s
            }
        } else if mode == InterfaceMode::Normal {
            &&& post_mode == mode
            &&& if is_overview_key(key) {
                t == (WallwatchStates { current_view: WallwatchView::Overview, ..s })
            } else if is_palette_key(key) {
                t == (WallwatchStates { current_view: WallwatchView::Palette, ..s })
            } else if is_down_key(key) || is_up_key(key) {
                t == (WallwatchStates {
                    wallpaper_list_state: if s.current_view == WallwatchView::Overview {
                        scrolled(s.wallpaper_list_state, s.wallpapers@.len(), is_down_key(key))
                    } else {
                        s.wallpaper_list_state
                    },
                    ..s
                })
            } else if key == KeyCode::Char('t') {
                t == (WallwatchStates { is_dark: !s.is_dark, ..s })
            } else if key == KeyCode::Char('/') {
                &&& t.fzf_query@.len() == 0
                &&& t.fzf_matches@ == fzf_matches_of(s.wallpapers@, t.fzf_query@)
                &&& t == (WallwatchStates {
                    show_fzf: true,
                    fzf_query: t.fzf_query,
                    fzf_matches: t.fzf_matches,
                    fzf_list_state: clamp_selection(s.fzf_list_state, t.fzf_matches@.len()).spec_select(
                        Some(0),
                    ),
                    ..s
                })
            } else {
                t == s
            }
        } else {
            &&& post_mode == mode
            &&& match key {
                KeyCode::Char(c) => {
                    &&& t.input_buffer@ == s.input_buffer@.push(c)
                    &&& t == (WallwatchStates {
                        input_buffer: t.input_buffer,
                        cursor_position: (s.cursor_position + 1) as usize,
                        ..s
                    })
                },
                KeyCode::Backspace => {
                    &&& t.input_buffer@ == if s.input_buffer@.len() > 0 {
                        s.input_buffer@.drop_last()
                    } else {
                        s.input_buffer@
                    }
                    &&& t == (WallwatchStates {
                        input_buffer: t.input_buffer,
                        cursor_position: (s.cursor_position - 1) as usize,
                        ..s
                    })
                },
                KeyCode::Enter => {
                    &&& t.input_buffer@.len() == 0
                    &&& t == (WallwatchStates { input_buffer: t.input_buffer, cursor_position: 0, ..s })
                },
                _ => t == s,
            }
        }
    }

    fn handle_fzf_input(&mut self, key: KeyEvent, mode: &mut InterfaceMode) -> (trig: Option<usize>)
        requires
            old(self).states.show_fzf,
            old(self).input_ok(key.code, *old(mode)),
        ensures
            old(self).input_post(key.code, *old(mode), *final(self), *final(mode)),
            trig == old(self).input_trigger(key.code, *old(mode)),
    {
        match key.code {
            KeyCode::Esc => {
                self.states.show_fzf = false;
                None
            },
            KeyCode::Down => {
                if self.states.fzf_matches.len() > 0 {
                    let curr = match self.states.fzf_list_state.selected() {
                        Some(c) => c,
                        None => 0,
                    };
                    let nxt = (curr + 1) % self.states.fzf_matches.len();
                    self.states.fzf_list_state.select(Some(nxt));
                }
                None
            },
            KeyCode::Up => {
                if self.states.fzf_matches.len() > 0 {
                    let curr = match self.states.fzf_list_state.selected() {
                        Some(c) => c,
                        None => 0,
                    };
                    let prev = if curr == 0 {
                        self.states.fzf_matches.len() - 1
                    } else {
                        curr - 1
                    };
                    self.states.fzf_list_state.select(Some(prev));
                }
                None
            },
            KeyCode::Char(c) => {
                push_char(&mut self.states.fzf_query, c);
                fzf_match_update(&mut self.states);
                None
            },
            KeyCode::Backspace => {
                pop_char(&mut self.states.fzf_query);
                fzf_match_update(&mut self.states);
                None
            },
            KeyCode::Enter => {
                match self.states.fzf_list_state.selected() {
                    Some(sel_idx) => {
                        let mut trig = None;
                        if sel_idx < self.states.fzf_matches.len() {
                            let idx = self.states.fzf_matches[sel_idx].0;
                            self.states.wallpaper_list_state.select(Some(idx));
                            trig = Some(idx);
                        }
                        self.states.show_fzf = false;
                        *mode = InterfaceMode::Normal;
                        trig
                    },
                    None => None,
                }
            },
            _ => None,
        }
    }

    fn handle_normal_input(&mut self, key: KeyEvent) -> (trig: Option<usize>)
        requires
            !old(self).states.show_fzf,
            old(self).input_ok(key.code, InterfaceMode::Normal),
        ensures
            old(self).input_post(key.code, InterfaceMode::Normal, *final(self), InterfaceMode::Normal),
            trig == old(self).input_trigger(key.code, InterfaceMode::Normal),
    {
        let mut selection_changed = false;
        let code = key.code;
        if code == KeyCode::Char('1') || code == KeyCode::Char('o') || code == KeyCode::Char('O') {
            self.states.current_view = WallwatchView::Overview;
        } else if code == KeyCode::Char('2') || code == KeyCode::Char('p') || code == KeyCode::Char('P') {
            self.states.current_view = WallwatchView::Palette;
        } else if code == KeyCode::Down || code == KeyCode::Char('j') {
            if self.states.current_view == WallwatchView::Overview && self.states.wallpapers.len() > 0 {
                self.scroll_list(true);
                selection_changed = true;
            }
        } else if code == KeyCode::Up || code == KeyCode::Char('k') {
            if self.states.current_view == WallwatchView::Overview && self.states.wallpapers.len() > 0 {
                self.scroll_list(false);
                selection_changed = true;
            }
        } else if code == KeyCode::Char('t') {
            self.states.is_dark = !self.states.is_dark;
            selection_changed = true;
        } else if code == KeyCode::Char('/') {
            self.states.show_fzf = true;
            clear_string(&mut self.states.fzf_query);
            fzf_match_update(&mut self.states);
            self.states.fzf_list_state.select(Some(0));
        }
        if selection_changed && self.states.current_view == WallwatchView::Overview {
            self.states.wallpaper_list_state.selected()
        } else {
            None
        }
    }

    fn handle_insert_input(&mut self, key: KeyEvent)
        requires
            !old(self).states.show_fzf,
            old(self).input_ok(key.code, InterfaceMode::Insert),
        ensures
            old(self).input_post(key.code, InterfaceMode::Insert, *final(self), InterfaceMode::Insert),
    {
        match key.code {
            KeyCode::Char(c) => {
                push_char(&mut self.states.input_buffer, c);
                self.states.cursor_position = self.states.cursor_position + 1;
            },
            KeyCode::Backspace => {
                pop_char(&mut self.states.input_buffer);
                self.states.cursor_position = self.states.cursor_position - 1;
            },
            KeyCode::Enter => {
                clear_string(&mut self.states.input_buffer);
                self.states.cursor_position = 0;
            },
            _ => {},
        }
    }

    /// Handles a key: in the fuzzy finder it edits the query, moves the pick
    /// or applies it; in normal mode it switches panes, moves the wallpaper
    /// selection, toggles light/dark or opens the finder; in insert mode it
    /// edits the text field. Returns the wallwatch run to start, if the key
    /// applies a wallpaper.
    pub fn handle_input(&mut self, key: KeyEvent, mode: &mut InterfaceMode, config: &Config) -> (r:
        Option<LaunchRequest>)
        requires
            old(self).input_ok(key.code, *old(mode)),
        ensures
            old(self).input_post(key.code, *old(mode), *final(self), *final(mode)),
            *final(mode) == old(self).input_mode(key.code, *old(mode)),
            launch_view(r) == match old(self).input_trigger(key.code, *old(mode)) {
                Some(i) => launch_spec(final(self).states, i as int, *config),
                None => None,
            },
    {
        let trig = if self.states.show_fzf {
            self.handle_fzf_input(key, mode)
        } else {
            match *mode {
                InterfaceMode::Normal => self.handle_normal_input(key),
                InterfaceMode::Insert => {
                    self.handle_insert_input(key);
                    None
                },
            }
        };
        match trig {
            Some(idx) => self.wallwatch_trigger(idx, config),
            None => None,
        }
    }
}

/// The wallpaper row under the pointer: the row inside the list's border,
/// shifted by the list's scroll offset.
pub open spec fn wallpaper_row(s: WallwatchStates, m: MouseEvent) -> int {
    sat_sub(m.row as int, s.wallpaper_list_area.y + 1) + s.wallpaper_list_state.offset
}

impl Wallwatch {
    /// Whether `handle_mouse` takes `m` without reaching an unfinished action
    /// (a left click on the header or on the palette) or an overflow.
    pub open spec fn mouse_ok(self, m: MouseEvent) -> bool {
        let s = self.states;
        if s.header_area.spec_contains(m.column, m.row) {
            m.kind != MouseEventKind::LeftDown
        } else if s.wallpaper_list_area.spec_contains(m.column, m.row) {
            &&& wallpaper_row(s, m) <= usize::MAX
            &&& (m.kind == MouseEventKind::ScrollDown && s.wallpapers@.len() > 0 ==> !scroll_overflows(
                s.wallpaper_list_state,
                true,
            ))
        } else if s.palette_list_area.spec_contains(m.column, m.row) {
            &&& m.kind != MouseEventKind::LeftDown
            &&& (m.kind == MouseEventKind::ScrollDown ==> sel_or_zero(s.palette_state) < usize::MAX)
        } else if s.control_panel_area.spec_contains(m.column, m.row) {
            m.kind == MouseEventKind::LeftDown && m.row == s.control_panel_area.y + 1
                ==> s.control_panel_area.x + 15 <= u16::MAX
        } else {
            true
        }
    }

    /// The wallpaper that a mouse event applies: the one clicked in the list.
    pub open spec fn mouse_trigger(self, m: MouseEvent) -> Option<usize> {
        let s = self.states;
        if !s.header_area.spec_contains(m.column, m.row) && s.wallpaper_list_area.spec_contains(
            m.column,
            m.row,
        ) && m.kind == MouseEventKind::LeftDown && wallpaper_row(s, m) < s.wallpapers@.len() {
            Some(wallpaper_row(s, m) as usize)
        } else {
            None
        }
    }

    /// How a mouse event changes the module.
    pub open spec fn mouse_post(self, m: MouseEvent) -> WallwatchStates {
        let s = self.states;
        if s.header_area.spec_contains(m.column, m.row) {
            s
        } else if s.wallpaper_list_area.spec_contains(m.column, m.row) {
            let row = wallpaper_row(s, m);
            WallwatchStates {
                current_view: WallwatchView::Overview,
                wallpaper_list_state: if m.kind == MouseEventKind::LeftDown {
                    if row < s.wallpapers@.len() {
                        s.wallpaper_list_state.spec_select(Some(row as usize))
                    } else {
                        s.wallpaper_list_state
                    }
                } else if m.kind == MouseEventKind::ScrollUp {
                    scrolled(s.wallpaper_list_state, s.wallpapers@.len(), false)
                } else if m.kind == MouseEventKind::ScrollDown {
                    scrolled(s.wallpaper_list_state, s.wallpapers@.len(), true)
                } else {
                    s.wallpaper_list_state
                },
                ..s
            }
        } else if s.palette_list_area.spec_contains(m.column, m.row) {
            let cur = sel_or_zero(s.palette_state) as int;
            WallwatchStates {
                current_view: WallwatchView::Overview,
                palette_state: if m.kind == MouseEventKind::ScrollUp {
                    s.palette_state.spec_select(Some(sat_sub(cur, 1) as usize))
                } else if m.kind == MouseEventKind::ScrollDown {
                    s.palette_state.spec_select(Some((cur + 1) as usize))
                } else {
                    s.palette_state
                },
                ..s
            }
        } else if s.control_panel_area.spec_contains(m.column, m.row) {
            let off = s.control_panel_area.x + 15;
            if m.kind == MouseEventKind::LeftDown && m.row == s.control_panel_area.y + 1 && m.column
                >= off {
                let target = m.column - off;
                let len = encode_utf8(s.input_buffer@).len() as usize as int;
                WallwatchStates {
                    cursor_position: (if target < len {
                        target
                    } else {
                        len
                    }) as usize,
                    ..s
                }
            } else {
                s
            }
        } else {
            s
        }
    }

    /// Handles a mouse event over the module's panes: clicking a wallpaper
    /// selects and applies it, scrolling moves the wallpaper or palette
    /// selection, clicking the text field's line places the cursor. Returns
    /// the wallwatch run to start, if the click applies a wallpaper.
    pub fn handle_mouse(&mut self, mouse: MouseEvent, mode: InterfaceMode, config: &Config) -> (r:
        Option<LaunchRequest>)
        requires
            old(self).mouse_ok(mouse),
        ensures
            final(self).name == old(self).name,
            final(self).states == old(self).mouse_post(mouse),
            launch_view(r) == match old(self).mouse_trigger(mouse) {
                Some(i) => launch_spec(final(self).states, i as int, *config),
                None => None,
            },
    {
        let x = mouse.column;
        let y = mouse.row;
        if self.states.header_area.contains(x, y) {
            return None;
        } else if self.states.wallpaper_list_area.contains(x, y) {
            self.states.current_view = WallwatchView::Overview;
            let rel_row = y.saturating_sub(self.states.wallpaper_list_area.y + 1) as usize;
            let scroll_offset = self.states.wallpaper_list_state.offset();
            let abs_idx = rel_row + scroll_offset;
            match mouse.kind {
                MouseEventKind::LeftDown => {
                    if abs_idx < self.states.wallpapers.len() {
                        self.states.wallpaper_list_state.select(Some(abs_idx));
                        return self.wallwatch_trigger(abs_idx, config);
                    }
                },
                MouseEventKind::ScrollUp => self.scroll_list(false),
                MouseEventKind::ScrollDown => self.scroll_list(true),
                MouseEventKind::Other => {},
            }
        } else if self.states.palette_list_area.contains(x, y) {
            self.states.current_view = WallwatchView::Overview;
            match mouse.kind {
                MouseEventKind::ScrollUp => {
                    let current = match self.states.palette_state.selected() {
                        Some(c) => c,
                        None => 0,
                    };
                    self.states.palette_state.select(Some(current.saturating_sub(1)));
                },
                MouseEventKind::ScrollDown => {
                    let current = match self.states.palette_state.selected() {
                        Some(c) => c,
                        None => 0,
                    };
                    self.states.palette_state.select(Some(current + 1));
                },
                _ => {},
            }
        } else if self.states.control_panel_area.contains(x, y) {
            if mouse.kind == MouseEventKind::LeftDown {
                if y == self.states.control_panel_area.y + 1 {
                    let text_field_label_offset = self.states.control_panel_area.x + 15;
                    if x >= text_field_label_offset {
                        let target_idx = (x - text_field_label_offset) as usize;
                        let len = self.states.input_buffer.as_str().len();
                        self.states.cursor_position = if target_idx < len {
                            target_idx
                        } else {
                            len
                        };
                    }
                }
            }
        }
        None
    }
}

impl Wallwatch {
    /// Wallwatch is listed under Projects.
    pub fn category(&self) -> (c: ModuleCategory)
        ensures
            c == ModuleCategory::Projects,
    {
        ModuleCategory::Projects
    }

    /// The name shown in the module list.
    pub fn submodname(&self) -> (s: &str)
        ensures
            s@ == self.name@,
    {
        self.name.as_str()
    }

    /// The project's name.
    pub fn name(&self) -> (s: &'static str)
        ensures
            s@ == "Wallwatch"@,
    {
        "Wallwatch"
    }

    /// The project's description.
    pub fn description(&self) -> (s: &'static str)
        ensures
            s@ == "atomatic theming tool based on material3 (M3)"@,
    {
        "atomatic theming tool based on material3 (M3)"
    }

    /// What the module's header shows, given the process names of two looks
    /// at the process table: under git, with the daemon flag telling whether
    /// `scoutd` is among the first names and the process flag whether
    /// `wallwatch` is among the second.
    pub fn definition_from(&self, daemon_names: &Vec<String>, proc_names: &Vec<String>) -> (d:
        ProjectDefinition)
        ensures
            d.name@ == self.name@,
            d.description@ == "atomatic theming tool based on material3 (M3)"@,
            d.git_enabled,
            d.daemon_running == listed(daemon_names@, "scoutd"@),
            d.process == listed(proc_names@, "wallwatch"@),
    {
        let daemon_running = name_listed(daemon_names, "scoutd");
        let process = name_listed(proc_names, "wallwatch");
        ProjectDefinition {
            name: String::from_str(self.submodname()),
            description: String::from_str(self.description()),
            git_enabled: true,
            daemon_running,
            process,
        }
    }

    /// What the module's header shows: under git, whether a `scoutd` process
    /// runs, and whether a `wallwatch` process runs, each from a look at the
    /// process table of its own (see `definition_from`).
    pub fn project_definition(&self) -> (d: ProjectDefinition)
        ensures
            d.name@ == self.name@,
            d.description@ == "atomatic theming tool based on material3 (M3)"@,
            d.git_enabled,
    {
        let daemon_names = running_process_names();
        let proc_names = running_process_names();
        self.definition_from(&daemon_names, &proc_names)
    }

    /// Records where the last frame drew the module's panes, so that mouse
    /// events can be routed to them.
    pub fn set_areas(&mut self, header: Rect, wallpaper_list: Rect, palette: Rect, control_panel: Rect)
        ensures
            *final(self) == (Wallwatch {
                states: WallwatchStates {
                    header_area: header,
                    wallpaper_list_area: wallpaper_list,
                    palette_list_area: palette,
                    control_panel_area: control_panel,
                    ..old(self).states
                },
                ..*old(self)
            }),
    {
        self.states.header_area = header;
        self.states.wallpaper_list_area = wallpaper_list;
        self.states.palette_list_area = palette;
        self.states.control_panel_area = control_panel;
    }
}

/// Scrolling one row down and one back up (or up, then down) returns to
/// the selected wallpaper.
pub proof fn law_scroll_round_trip(ls: ListState, len: nat)
    requires
        ls.selected matches Some(i) && i < len,
        len <= usize::MAX,
    ensures
        scrolled(scrolled(ls, len, true), len, false).selected == ls.selected,
        scrolled(scrolled(ls, len, false), len, true).selected == ls.selected,
{
    let i = ls.selected.unwrap() as int;
    let l = len as int;
    if i + 1 < l {
        assert((i + 1) % l == i + 1) by (nonlinear_arith)
            requires
                0 <= i + 1 < l,
        ;
    } else {
        assert((i + 1) % l == 0) by (nonlinear_arith)
            requires
                i + 1 == l,
                l > 0,
        ;
    }
    if i == 0 {
        assert((l - 1 + 1) % l == 0) by (nonlinear_arith)
            requires
                l > 0,
        ;
    } else {
        assert((i - 1 + 1) % l == i) by (nonlinear_arith)
            requires
                0 <= i < l,
        ;
    }
}

/// The fuzzy finder lists exactly the wallpapers that match, each with its
/// own position and data, in the order of the wallpaper list.
pub proof fn law_fzf_results(w: Seq<(String, WallpaperItem)>, q: Seq<char>)
    requires
        w.len() <= usize::MAX,
    ensures
        ({
            let m = fzf_matches_of(w, q);
            &&& forall|j: int|
                0 <= j < m.len() ==> (#[trigger] m[j]).0 < w.len() && w[m[j].0 as int] == (m[j].1, m[j].2)
                    && fzf_hit(m[j].2, q)
            &&& forall|i: int| 0 <= i < w.len() && fzf_hit(#[trigger] w[i].1, q) ==> exists|j: int|
                0 <= j < m.len() && (#[trigger] m[j]).0 == i
            &&& forall|j: int, k: int| 0 <= j < k < m.len() ==> (#[trigger] m[j]).0 < (#[trigger] m[k]).0
        }),
    decreases w.len(),
{
    if w.len() > 0 {
        let v = w.drop_last();
        law_fzf_results(v, q);
        let rest = fzf_matches_of(v, q);
        let m = fzf_matches_of(w, q);
        assert forall|j: int| 0 <= j < rest.len() implies (#[trigger] rest[j]).0 < v.len() by {}
        assert forall|i: int| 0 <= i < w.len() && fzf_hit(#[trigger] w[i].1, q) implies exists|j: int|
            0 <= j < m.len() && (#[trigger] m[j]).0 == i by {
            if i < v.len() {
                assert(v[i] == w[i]);
                let j = choose|j: int| 0 <= j < rest.len() && (#[trigger] rest[j]).0 == i;
                assert(m[j] == rest[j]);
            } else {
                assert(m[m.len() - 1].0 == i);
            }
        }
        assert forall|j: int| 0 <= j < m.len() implies (#[trigger] m[j]).0 < w.len() && w[m[j].0 as int] == (
            m[j].1,
            m[j].2,
        ) && fzf_hit(m[j].2, q) by {
            if j < rest.len() {
                assert(m[j] == rest[j]);
                assert(w[rest[j].0 as int] == v[rest[j].0 as int]);
            }
        }
    }
}

/// With an empty query the fuzzy finder lists every wallpaper, in order,
/// each with its own position.
pub proof fn law_fzf_empty_query_lists_all(w: Seq<(String, WallpaperItem)>, q: Seq<char>)
    requires
        q.len() == 0,
        w.len() <= usize::MAX,
    ensures
        fzf_matches_of(w, q).len() == w.len(),
        forall|j: int|
            0 <= j < w.len() ==> #[trigger] fzf_matches_of(w, q)[j] == (j as usize, w[j].0, w[j].1),
    decreases w.len(),
{
    if w.len() > 0 {
        law_fzf_empty_query_lists_all(w.drop_last(), q);
    }
}

proof fn lemma_fzf_matches_shrink(w: Seq<(String, WallpaperItem)>, q1: Seq<char>, q2: Seq<char>)
    requires
        forall|it: WallpaperItem| #[trigger] fzf_hit(it, q2) ==> fzf_hit(it, q1),
    ensures
        forall|j: int|
            0 <= j < fzf_matches_of(w, q2).len() ==> fzf_matches_of(w, q1).contains(
                #[trigger] fzf_matches_of(w, q2)[j],
            ),
    decreases w.len(),
{
    if w.len() > 0 {
        let v = w.drop_last();
        lemma_fzf_matches_shrink(v, q1, q2);
        let r1 = fzf_matches_of(v, q1);
        let r2 = fzf_matches_of(v, q2);
        let m1 = fzf_matches_of(w, q1);
        let m2 = fzf_matches_of(w, q2);
        assert forall|j: int| 0 <= j < m2.len() implies m1.contains(#[trigger] m2[j]) by {
            if j < r2.len() {
                assert(m2[j] == r2[j]);
                assert(r1.contains(r2[j]));
                let k = choose|k: int| 0 <= k < r1.len() && r1[k] == r2[j];
                assert(m1[k] == r1[k]);
            } else {
                assert(fzf_hit(w.last().1, q2));
                assert(m1[m1.len() - 1] == m2[j]);
            }
        }
    }
}

/// Typing one more character into the fuzzy finder never adds a result:
/// every result of the longer query is one of the shorter query's (for
/// ASCII text, where `to_lowercase` is ASCII lowercasing).
pub proof fn law_fzf_narrowing(w: Seq<(String, WallpaperItem)>, q: Seq<char>, ch: char)
    requires
        lowercase(q) == ascii_lower(q),
        lowercase(q.push(ch)) == ascii_lower(q.push(ch)),
    ensures
        forall|j: int|
            0 <= j < fzf_matches_of(w, q.push(ch)).len() ==> fzf_matches_of(w, q).contains(
                #[trigger] fzf_matches_of(w, q.push(ch))[j],
            ),
{
    let lq = ascii_lower(q);
    assert(ascii_lower(q.push(ch)) =~= lq.push(ascii_lower_char(ch)));
    assert forall|it: WallpaperItem| #[trigger] fzf_hit(it, q.push(ch)) implies fzf_hit(it, q) by {
        if q.len() > 0 {
            let h = lowercase(it.relative_path@);
            let p = lq.push(ascii_lower_char(ch));
            let i = choose|i: int| 0 <= i && i + p.len() <= h.len() && #[trigger] h.subrange(i, i + p.len()) == p;
            assert(h.subrange(i, i + lq.len()) =~= p.subrange(0, lq.len() as int));
            assert(p.subrange(0, lq.len() as int) =~= lq);
        }
    }
    lemma_fzf_matches_shrink(w, q, q.push(ch));
}

/// The fuzzy finder ignores ASCII case: two ASCII queries that agree up to
/// case give the same results.
pub proof fn law_fzf_ignores_case(w: Seq<(String, WallpaperItem)>, q1: Seq<char>, q2: Seq<char>)
    requires
        lowercase(q1) == ascii_lower(q1),
        lowercase(q2) == ascii_lower(q2),
        ascii_lower(q1) == ascii_lower(q2),
    ensures
        fzf_matches_of(w, q1) == fzf_matches_of(w, q2),
    decreases w.len(),
{
    assert(q1.len() == ascii_lower(q1).len());
    assert(q2.len() == ascii_lower(q2).len());
    if w.len() > 0 {
        law_fzf_ignores_case(w.drop_last(), q1, q2);
    }
}

/// In insert mode, typing a character and erasing it again restores the
/// text field and its cursor.
pub proof fn law_type_then_erase(a: Wallwatch, b: Wallwatch, c: Wallwatch, ch: char)
    requires
        !a.states.show_fzf,
        a.states.cursor_position < usize::MAX,
        a.input_post(KeyCode::Char(ch), InterfaceMode::Insert, b, InterfaceMode::Insert),
        b.input_post(KeyCode::Backspace, InterfaceMode::Insert, c, InterfaceMode::Insert),
    ensures
        c.states.input_buffer@ == a.states.input_buffer@,
        c.states.cursor_position == a.states.cursor_position,
{
    assert(a.states.input_buffer@.push(ch).drop_last() =~= a.states.input_buffer@);
}

/// In the fuzzy finder, typing a character and erasing it again restores
/// the query and the results for it.
pub proof fn law_fzf_type_then_erase(a: Wallwatch, b: Wallwatch, c: Wallwatch, ch: char, m: InterfaceMode)
    requires
        a.states.show_fzf,
        a.input_post(KeyCode::Char(ch), m, b, m),
        b.input_post(KeyCode::Backspace, m, c, m),
    ensures
        c.states.show_fzf,
        c.states.fzf_query@ == a.states.fzf_query@,
        c.states.fzf_matches@ == fzf_matches_of(a.states.wallpapers@, a.states.fzf_query@),
{
    assert(a.states.fzf_query@.push(ch).drop_last() =~= a.states.fzf_query@);
}

/// Toggling light/dark twice restores the module.
pub proof fn law_toggle_dark_twice(a: Wallwatch, b: Wallwatch, c: Wallwatch)
    requires
        !a.states.show_fzf,
        a.input_post(KeyCode::Char('t'), InterfaceMode::Normal, b, InterfaceMode::Normal),
        b.input_post(KeyCode::Char('t'), InterfaceMode::Normal, c, InterfaceMode::Normal),
    ensures
        c.states == a.states,
        c.name == a.name,
{
}

/// Where the wallwatch module draws its panes.
pub struct WallwatchAreas {
    pub header: Rect,
    pub body: Rect,
    pub right: Rect,
    pub palette: Rect,
    pub wallpaper_list: Rect,
    pub control_panel: Rect,
}

impl Wallwatch {
    /// Lays the module out over `area` and records the panes for mouse
    /// routing: a three-row header above; below it the palette takes the
    /// right 30%, and the rest splits into the wallpaper list (top 70%) and
    /// the control panel.
    pub fn arrange(&mut self, area: Rect) -> (a: WallwatchAreas)
        ensures
            ({
                let rows = layout_split(Direction::Vertical, seq![Constraint::Length(3), Constraint::Fill(1)], area);
                let cols = layout_split(Direction::Horizontal, seq![Constraint::Min(0), Constraint::Percentage(30)], rows[1]);
                let main = layout_split(Direction::Vertical, seq![Constraint::Percentage(70), Constraint::Fill(1)], cols[0]);
                &&& a.header == rows[0]
                &&& a.body == rows[1]
                &&& a.right == cols[0]
                &&& a.palette == cols[1]
                &&& a.wallpaper_list == main[0]
                &&& a.control_panel == main[1]
                &&& *final(self) == (Wallwatch {
                    states: WallwatchStates {
                        header_area: rows[0],
                        palette_list_area: cols[1],
                        wallpaper_list_area: main[0],
                        control_panel_area: main[1],
                        ..old(self).states
                    },
                    ..*old(self)
                })
            }),
    {
        let rows = split(Direction::Vertical, &pair(Constraint::Length(3), Constraint::Fill(1)), area);
        let cols = split(Direction::Horizontal, &pair(Constraint::Min(0), Constraint::Percentage(30)), rows[1]);
        let main = split(Direction::Vertical, &pair(Constraint::Percentage(70), Constraint::Fill(1)), cols[0]);
        let a = WallwatchAreas {
            header: rows[0],
            body: rows[1],
            right: cols[0],
            palette: cols[1],
            wallpaper_list: main[0],
            control_panel: main[1],
        };
        self.states.header_area = a.header;
        self.states.palette_list_area = a.palette;
        self.states.wallpaper_list_area = a.wallpaper_list;
        self.states.control_panel_area = a.control_panel;
        a
    }
}

/// The color of a palette entry's hex string; white where it does not read
/// as one.
pub open spec fn palette_color(s: Seq<char>) -> Color {
    match hex_color(s) {
        Some((r, g, b)) => Color::Rgb(r, g, b),
        None => Color::White,
    }
}

/// The color of a palette entry's hex string; white where it does not read
/// as one.
pub fn parse_hex(hex: &str) -> (c: Color)
    ensures
        c == palette_color(hex@),
{
    match hex_rgb(hex) {
        Some((r, g, b)) => Color::Rgb(r, g, b),
        None => Color::White,
    }
}

/// Entries in order of their names (`String` ordering).
pub open spec fn sorted_by_name<V>(s: Seq<(String, V)>) -> bool {
    forall|i: int, j: int| 0 <= i < j < s.len() ==> chars_le(#[trigger] s[i].0@, #[trigger] s[j].0@)
}

/// The entries of `s` whose name is `k`, in order.
pub open spec fn entries_named<V>(s: Seq<(String, V)>, k: Seq<char>) -> Seq<(String, V)>
    decreases s.len(),
{
    if s.len() == 0 {
        seq![]
    } else {
        let rest = entries_named(s.drop_last(), k);
        if s.last().0@ == k {
            rest.push(s.last())
        } else {
            rest
        }
    }
}

proof fn lemma_entries_named_concat<V>(a: Seq<(String, V)>, b: Seq<(String, V)>, k: Seq<char>)
    ensures
        entries_named(a + b, k) == entries_named(a, k) + entries_named(b, k),
    decreases b.len(),
{
    if b.len() == 0 {
        assert(a + b =~= a);
        assert(entries_named(a, k) + entries_named(b, k) =~= entries_named(a, k));
    } else {
        lemma_entries_named_concat(a, b.drop_last(), k);
        assert((a + b).drop_last() =~= a + b.drop_last());
        assert((a + b).last() == b.last());
        if b.last().0@ == k {
            assert(entries_named(a, k) + entries_named(b.drop_last(), k).push(b.last()) =~= (
            entries_named(a, k) + entries_named(b.drop_last(), k)).push(b.last()));
        }
    }
}

proof fn lemma_entries_named_none<V>(s: Seq<(String, V)>, k: Seq<char>)
    requires
        forall|j: int| 0 <= j < s.len() ==> (#[trigger] s[j]).0@ != k,
    ensures
        entries_named(s, k) == Seq::<(String, V)>::empty(),
    decreases s.len(),
{
    if s.len() > 0 {
        lemma_entries_named_none(s.drop_last(), k);
    }
}

fn insert_by_name<V>(out: &mut Vec<(String, V)>, x: (String, V))
    requires
        sorted_by_name(old(out)@),
    ensures
        sorted_by_name(final(out)@),
        final(out)@.to_multiset() == old(out)@.to_multiset().insert(x),
        forall|k: Seq<char>| #[trigger] entries_named(final(out)@, k) == entries_named(old(out)@.push(x), k),
{
    let n = out.len();
    let mut p: usize = 0;
    while p < n && str_le(out[p].0.as_str(), x.0.as_str())
        invariant
            n == out@.len(),
            p <= n,
            forall|j: int| 0 <= j < p ==> chars_le(#[trigger] out@[j].0@, x.0@),
        decreases n - p,
    {
        p += 1;
    }
    let ghost before = out@;
    proof {
        if p < n {
            lemma_chars_le_total(before[p as int].0@, x.0@);
        }
    }
    out.insert(p, x);
    proof {
        let s = out@;
        assert(s =~= before.insert(p as int, x));
        assert forall|i: int, j: int| 0 <= i < j < s.len() implies chars_le(#[trigger] s[i].0@, #[trigger] s[j].0@) by {
            if i < p && j == p {
            } else if i < p && j > p {
                if p < n {
                    lemma_chars_le_trans(before[i].0@, x.0@, before[p as int].0@);
                    if j - 1 > p {
                        lemma_chars_le_trans(before[i].0@, before[p as int].0@, before[j - 1].0@);
                    }
                }
            } else if i == p && j > p {
                if j - 1 > p {
                    lemma_chars_le_trans(x.0@, before[p as int].0@, before[j - 1].0@);
                }
            } else if i > p {
                assert(s[i] == before[i - 1]);
                assert(s[j] == before[j - 1]);
            }
        }
        let head = before.take(p as int);
        let tail = before.skip(p as int);
        assert(before =~= head + tail);
        assert(s =~= head + seq![x] + tail);
        assert(before.push(x) =~= head + tail + seq![x]);
        assert forall|j: int| 0 <= j < tail.len() implies (#[trigger] tail[j]).0@ != x.0@ by {
            if tail[j].0@ == x.0@ {
                if j > 0 {
                    assert(chars_le(before[p as int].0@, before[p + j].0@));
                } else {
                    lemma_chars_le_refl(x.0@);
                }
            }
        }
        assert forall|k: Seq<char>| #[trigger] entries_named(s, k) == entries_named(before.push(x), k) by {
            lemma_entries_named_concat(head + seq![x], tail, k);
            lemma_entries_named_concat(head, seq![x], k);
            lemma_entries_named_concat(head + tail, seq![x], k);
            lemma_entries_named_concat(head, tail, k);
            assert(seq![x].drop_last() =~= Seq::<(String, V)>::empty());
            assert(seq![x].last() == x);
            assert(entries_named(Seq::<(String, V)>::empty(), k) =~= Seq::<(String, V)>::empty());
            if k == x.0@ {
                lemma_entries_named_none(tail, k);
            } else {
                assert(entries_named(seq![x], k) =~= Seq::<(String, V)>::empty());
            }
        }
    }
}

/// Sorts named entries (such as a scheme's colors) by name, keeping equal
/// names in their given order.
pub fn sort_by_name<V>(v: Vec<(String, V)>) -> (r: Vec<(String, V)>)
    ensures
        sorted_by_name(r@),
        r@.to_multiset() == v@.to_multiset(),
        forall|k: Seq<char>| #[trigger] entries_named(r@, k) == entries_named(v@, k),
{
    let mut input = v;
    let mut out: Vec<(String, V)> = Vec::new();
    let ghost orig = input@;
    let ghost mut k: int = 0;
    assert(orig.skip(0) =~= orig);
    assert(orig.take(0) =~= Seq::<(String, V)>::empty());
    while input.len() > 0
        invariant
            0 <= k <= orig.len(),
            input@ == orig.skip(k),
            sorted_by_name(out@),
            out@.to_multiset() == orig.take(k).to_multiset(),
            forall|key: Seq<char>| #[trigger] entries_named(out@, key) == entries_named(orig.take(k), key),
        decreases input@.len(),
    {
        let x = input.remove(0);
        let ghost prev = out@;
        proof {
            assert(orig.take(k + 1) =~= orig.take(k).push(x));
            assert(input@ =~= orig.skip(k + 1));
        }
        insert_by_name(&mut out, x);
        proof {
            assert forall|key: Seq<char>| #[trigger] entries_named(out@, key) == entries_named(orig.take(k + 1), key) by {
                assert(entries_named(out@, key) == entries_named(prev.push(x), key));
                assert(entries_named(prev, key) == entries_named(orig.take(k), key));
                assert(prev.push(x).drop_last() =~= prev);
                assert(prev.push(x).last() == x);
                assert(orig.take(k + 1).drop_last() =~= orig.take(k));
                assert(orig.take(k + 1).last() == x);
            }
            k = k + 1;
        }
    }
    assert(orig.take(k) =~= orig);
    out
}

/// The blank run in a palette row that pushes the hex code to the right:
/// the inner width (the area's width less four cells) less the bytes of the
/// label (`label_bytes`, the swatch glyph, a space and the lowercased name)
/// and seven cells for the code, not below 0.
pub fn palette_filler(label_bytes: usize, width: u16) -> (w: usize)
    ensures
        w == sat_sub(sat_sub(sat_sub(width as int, 4), label_bytes as int), 7),
{
    let inner_width = (width as usize).saturating_sub(4);
    inner_width.saturating_sub(label_bytes).saturating_sub(7)
}

/// The blank run in a wallpaper row that pushes the seed's stars to the
/// right: the inner width (the area's width less four cells) less the bytes
/// of the file name and ten cells for the stars, not below 0.
pub fn wallpaper_filler(width: u16, name_bytes: usize) -> (n: usize)
    ensures
        n == sat_sub(sat_sub(sat_sub(width as int, 4), name_bytes as int), 10),
{
    let inner_width = (width as usize).saturating_sub(4);
    inner_width.saturating_sub(name_bytes).saturating_sub(10)
}

/// The palette pane's two parts: the color list above, and the scheme's
/// information in the bottom 20%.
pub fn palette_panes(area: Rect) -> (r: (Rect, Rect))
    ensures
        ({
            let parts = layout_split(Direction::Vertical, seq![Constraint::Min(0), Constraint::Percentage(20)], area);
            r == (parts[0], parts[1])
        }),
{
    let parts = split(Direction::Vertical, &pair(Constraint::Min(0), Constraint::Percentage(20)), area);
    (parts[0], parts[1])
}

/// The fuzzy finder's two parts: the results above, and a prompt of three
/// rows at the bottom.
pub fn fzf_panes(modal: Rect) -> (r: (Rect, Rect))
    ensures
        ({
            let parts = layout_split(Direction::Vertical, seq![Constraint::Min(0), Constraint::Length(3)], modal);
            r == (parts[0], parts[1])
        }),
{
    let parts = split(Direction::Vertical, &pair(Constraint::Min(0), Constraint::Length(3)), modal);
    (parts[0], parts[1])
}

/// A wallpaper's seed color string as the list reads it: uppercased, with
/// every `0X`, then every `0[`, then every `0]` taken out.
pub open spec fn seed_clean(seed: Seq<char>) -> Seq<char> {
    replaced(replaced(replaced(uppercase(seed), "0X"@, ""@), "0["@, ""@), "0]"@, ""@)
}

/// Whether the last six bytes of the cleaned seed start on a character
/// (where the cleaned seed has six bytes); cutting elsewhere panics.
pub open spec fn seed_cut_ok(seed: Seq<char>) -> bool {
    let b = encode_utf8(seed_clean(seed));
    b.len() >= 6 ==> is_char_boundary(b, b.len() - 6)
}

/// The color of a wallpaper's seed: its last six bytes, once cleaned, read
/// as a hexadecimal number; white where there are fewer than six bytes or
/// they do not read as one.
pub open spec fn seed_rgb_spec(seed: Seq<char>) -> (u8, u8, u8) {
    let b = encode_utf8(seed_clean(seed));
    if b.len() >= 6 {
        match parse_hex_u32(decode_utf8(b.subrange(b.len() - 6, b.len() as int))) {
            Some(v) => rgb_channels(v),
            None => (255, 255, 255),
        }
    } else {
        (255, 255, 255)
    }
}

fn seed_cleaned(seed: &str) -> (c: String)
    ensures
        c@ == seed_clean(seed@),
{
    let up = to_uppercase(seed);
    proof {
        reveal_strlit("0X");
        reveal_strlit("0[");
        reveal_strlit("0]");
    }
    let a = replace_str(up.as_str(), "0X", "");
    let b = replace_str(a.as_str(), "0[", "");
    replace_str(b.as_str(), "0]", "")
}

/// The color of a wallpaper's seed (see `seed_rgb_spec`), where its last
/// six bytes can be cut out (see `seed_cut_ok`).
pub fn seed_rgb(seed: &str) -> (c: (u8, u8, u8))
    requires
        seed_cut_ok(seed@),
    ensures
        c == seed_rgb_spec(seed@),
{
    let clean = seed_cleaned(seed);
    let n = clean.as_str().as_bytes().len();
    if n >= 6 {
        let (_, tail) = clean.as_str().split_at(n - 6);
        proof {
            encode_utf8_decode_utf8(tail@);
        }
        let tail_len = tail.unicode_len();
        assert(tail@.skip(0) =~= tail@);
        match parse_hex_u32_str(tail, tail_len, 0) {
            Some(v) => rgb_of(v),
            None => (255, 255, 255),
        }
    } else {
        (255, 255, 255)
    }
}

/// The color of a wallpaper's seed, or `None` where its last six bytes
/// cannot be cut out (where the list would panic).
pub fn seed_rgb_checked(seed: &str) -> (c: Option<(u8, u8, u8)>)
    ensures
        c == if seed_cut_ok(seed@) {
            Some(seed_rgb_spec(seed@))
        } else {
            None
        },
{
    let clean = seed_cleaned(seed);
    let n = clean.as_str().as_bytes().len();
    if n >= 6 && !clean.as_str().is_char_boundary(n - 6) {
        None
    } else {
        Some(seed_rgb(seed))
    }
}

/// The scheme variant shown in the wallpaper list's title: the configured
/// one, unless it is `vibrant`, in which case the registry's own variant
/// takes its place where the registry names one.
pub open spec fn active_variant_spec(configured: Seq<char>, registry: Option<String>) -> Seq<char> {
    if configured != "vibrant"@ {
        configured
    } else {
        match registry {
            Some(v) => v@,
            None => configured,
        }
    }
}

/// The scheme variant shown in the wallpaper list's title (see
/// `active_variant_spec`).
pub fn active_variant<'a>(configured: &'a str, registry: &'a Option<String>) -> (v: &'a str)
    ensures
        v@ == active_variant_spec(configured@, *registry),
{
    if !str_eq(configured, "vibrant") {
        configured
    } else {
        match registry {
            Some(r) => r.as_str(),
            None => configured,
        }
    }
}

/// Where the fuzzy finder's cursor stands: on the prompt's first inner row,
/// after the border, the `> ` mark and the query's bytes.
pub fn fzf_cursor(prompt: Rect, query_bytes: usize) -> (p: (u16, u16))
    requires
        prompt.x + 3 + (query_bytes as u16) <= u16::MAX,
        prompt.y + 1 <= u16::MAX,
    ensures
        p == ((prompt.x + 3 + (query_bytes as u16)) as u16, (prompt.y + 1) as u16),
{
    (prompt.x + 3 + (query_bytes as u16), prompt.y + 1)
}

/// The part of a result's path that the fuzzy finder highlights: the first
/// run of the lowercased path that equals the lowercased query, as start and
/// end positions in characters of the lowercased path; none for an empty
/// query or where the query does not occur.
pub open spec fn highlight_spec(path: Seq<char>, query: Seq<char>) -> Option<(int, int)> {
    let q = lowercase(query);
    if q.len() == 0 {
        None
    } else {
        match first_occurrence_from(lowercase(path), q, 0) {
            Some(i) => Some((i, i + q.len())),
            None => None,
        }
    }
}

/// The part of a result's path that the fuzzy finder highlights (see
/// `highlight_spec`).
pub fn fzf_highlight(path: &str, query: &str) -> (r: Option<(usize, usize)>)
    ensures
        match r {
            Some((a, b)) => highlight_spec(path@, query@) == Some((a as int, b as int)),
            None => highlight_spec(path@, query@) is None,
        },
{
    let q = to_lowercase(query);
    if q.as_str().is_empty() {
        return None;
    }
    let p = to_lowercase(path);
    match find_str(p.as_str(), q.as_str()) {
        Some(i) => {
            proof {
                lemma_first_occurrence_in_range(p@, q@, 0);
            }
            let n = q.as_str().unicode_len();
            let total = p.as_str().unicode_len();
            assert(i + n <= total);
            Some((i, i + n))
        },
        None => None,
    }
}

impl Wallwatch {
    /// Whether `handle_input` takes `key` in `mode` (see `input_ok`).
    pub fn accepts_input(&self, key: KeyCode, mode: InterfaceMode) -> (b: bool)
        ensures
            b == self.input_ok(key, mode),
    {
        let s = &self.states;
        if s.show_fzf {
            if key == KeyCode::Down && s.fzf_matches.len() > 0 {
                match s.fzf_list_state.selected() {
                    Some(c) => c < usize::MAX,
                    None => true,
                }
            } else {
                true
            }
        } else if mode == InterfaceMode::Normal {
            if (key == KeyCode::Down || key == KeyCode::Char('j')) && s.current_view == WallwatchView::Overview
                && s.wallpapers.len() > 0 {
                s.wallpaper_list_state.selected() != Some(usize::MAX)
            } else {
                true
            }
        } else {
            match key {
                KeyCode::Char(_) => s.cursor_position < usize::MAX,
                KeyCode::Backspace => s.cursor_position > 0,
                _ => true,
            }
        }
    }

    /// Whether `handle_mouse` takes `m` (see `mouse_ok`).
    pub fn accepts_mouse(&self, m: MouseEvent) -> (b: bool)
        ensures
            b == self.mouse_ok(m),
    {
        let s = &self.states;
        if s.header_area.contains(m.column, m.row) {
            m.kind != MouseEventKind::LeftDown
        } else if s.wallpaper_list_area.contains(m.column, m.row) {
            let rel_row = m.row.saturating_sub(s.wallpaper_list_area.y + 1) as usize;
            let offset = s.wallpaper_list_state.offset();
            rel_row <= usize::MAX - offset && (m.kind != MouseEventKind::ScrollDown || s.wallpapers.len() == 0
                || s.wallpaper_list_state.selected() != Some(usize::MAX))
        } else if s.palette_list_area.contains(m.column, m.row) {
            m.kind != MouseEventKind::LeftDown && (m.kind != MouseEventKind::ScrollDown || match s.palette_state.selected() {
                Some(c) => c < usize::MAX,
                None => true,
            })
        } else if s.control_panel_area.contains(m.column, m.row) {
            !(m.kind == MouseEventKind::LeftDown && m.row == s.control_panel_area.y + 1)
                || s.control_panel_area.x <= u16::MAX - 15
        } else {
            true
        }
    }
}

/// After the results change, the finder's selection is a result, and there
/// is one exactly when there are results.
pub proof fn law_fzf_selection_valid(ls: ListState, m: nat)
    requires
        m <= usize::MAX,
    ensures
        clamp_selection(ls, m).selected matches Some(i) ==> i < m,
        m > 0 <==> clamp_selection(ls, m).selected is Some,
{
}

/// A left click on a wallpaper row (inside the list's border) picks the
/// wallpaper shown on that row: the row counted from the list's first inner
/// row, plus how far the list is scrolled. That wallpaper is selected and
/// applied; a click below the last wallpaper selects and applies nothing.
pub proof fn law_click_picks_the_row_shown(w: Wallwatch, m: MouseEvent)
    requires
        m.kind == MouseEventKind::LeftDown,
        !w.states.header_area.spec_contains(m.column, m.row),
        w.states.wallpaper_list_area.spec_contains(m.column, m.row),
        m.row >= w.states.wallpaper_list_area.y + 1,
    ensures
        ({
            let k = m.row - w.states.wallpaper_list_area.y - 1 + w.states.wallpaper_list_state.offset;
            &&& w.mouse_post(m).current_view == WallwatchView::Overview
            &&& k < w.states.wallpapers@.len() ==> {
                &&& w.mouse_trigger(m) == Some(k as usize)
                &&& w.mouse_post(m).wallpaper_list_state.selected == Some(k as usize)
                &&& w.mouse_post(m).wallpaper_list_state.offset == w.states.wallpaper_list_state.offset
            }
            &&& k >= w.states.wallpapers@.len() ==> {
                &&& w.mouse_trigger(m) is None
                &&& w.mouse_post(m).wallpaper_list_state == w.states.wallpaper_list_state
            }
        }),
{
}

/// In the overview with wallpapers, Down (`j`) selects and applies the next
/// wallpaper and Up (`k`) the previous one, each wrapping around at the end
/// of the list.
pub proof fn law_arrow_keys_step_and_apply(a: Wallwatch, b: Wallwatch, key: KeyCode, i: usize)
    requires
        !a.states.show_fzf,
        a.states.current_view == WallwatchView::Overview,
        a.states.wallpaper_list_state.selected == Some(i),
        i < a.states.wallpapers@.len(),
        key == KeyCode::Up || key == KeyCode::Char('k') || key == KeyCode::Down || key == KeyCode::Char('j'),
        a.input_post(key, InterfaceMode::Normal, b, InterfaceMode::Normal),
    ensures
        ({
            let n = a.states.wallpapers@.len();
            let up = key == KeyCode::Up || key == KeyCode::Char('k');
            let want = if up {
                if i == 0 {
                    n - 1
                } else {
                    i - 1
                }
            } else {
                if i + 1 == n {
                    0
                } else {
                    i + 1
                }
            };
            &&& b.states.wallpaper_list_state.selected == Some(want as usize)
            &&& a.input_trigger(key, InterfaceMode::Normal) == Some(want as usize)
        }),
{
    let n = a.states.wallpapers@.len() as int;
    if i + 1 < n {
        assert((i + 1) % n == i + 1) by (nonlinear_arith)
            requires
                0 <= i + 1 < n,
        ;
    } else {
        assert((i + 1) % n == 0) by (nonlinear_arith)
            requires
                i + 1 == n,
        ;
    }
}

/// In the overview, Down and then Up (or Up and then Down) returns to the
/// selected wallpaper.
pub proof fn law_down_then_up_restores(a: Wallwatch, b: Wallwatch, c: Wallwatch, first: KeyCode, second: KeyCode)
    requires
        !a.states.show_fzf,
        a.states.current_view == WallwatchView::Overview,
        a.states.wallpaper_list_state.selected matches Some(i) && i < a.states.wallpapers@.len(),
        a.states.wallpapers@.len() <= usize::MAX,
        (first == KeyCode::Down && second == KeyCode::Up) || (first == KeyCode::Up && second == KeyCode::Down),
        a.input_post(first, InterfaceMode::Normal, b, InterfaceMode::Normal),
        b.input_post(second, InterfaceMode::Normal, c, InterfaceMode::Normal),
    ensures
        c.states.wallpaper_list_state.selected == a.states.wallpaper_list_state.selected,
{
    let i = a.states.wallpaper_list_state.selected.unwrap();
    law_arrow_keys_step_and_apply(a, b, first, i);
    let j = b.states.wallpaper_list_state.selected.unwrap();
    law_arrow_keys_step_and_apply(b, c, second, j);
}

/// For a non-empty query, the fuzzy finder lists a wallpaper exactly when
/// the lowercased query occurs somewhere in its lowercased relative path,
/// at any position; and each result is that wallpaper with its position.
pub proof fn law_fzf_finds_any_occurrence(w: Seq<(String, WallpaperItem)>, q: Seq<char>, k: int)
    requires
        q.len() > 0,
        0 <= k < w.len(),
        w.len() <= usize::MAX,
    ensures
        (exists|i: int|
            0 <= i && i + lowercase(q).len() <= lowercase(w[k].1.relative_path@).len()
                && #[trigger] lowercase(w[k].1.relative_path@).subrange(i, i + lowercase(q).len()) == lowercase(q))
            <==> (exists|j: int|
            0 <= j < fzf_matches_of(w, q).len() && #[trigger] fzf_matches_of(w, q)[j] == (k as usize, w[k].0, w[k].1)),
{
    law_fzf_results(w, q);
    let m = fzf_matches_of(w, q);
    let lq = lowercase(q);
    let h = lowercase(w[k].1.relative_path@);
    if exists|i: int| 0 <= i && i + lq.len() <= h.len() && #[trigger] h.subrange(i, i + lq.len()) == lq {
        assert(fzf_hit(w[k].1, q));
        let j = choose|j: int| 0 <= j < m.len() && (#[trigger] m[j]).0 == k;
        assert(w[m[j].0 as int] == (m[j].1, m[j].2));
        assert(m[j] == (k as usize, w[k].0, w[k].1));
    }
    if exists|j: int| 0 <= j < m.len() && #[trigger] m[j] == (k as usize, w[k].0, w[k].1) {
        let j = choose|j: int| 0 <= j < m.len() && #[trigger] m[j] == (k as usize, w[k].0, w[k].1);
        assert(fzf_hit(m[j].2, q));
        let i = choose|i: int| 0 <= i && i + lq.len() <= h.len() && #[trigger] h.subrange(i, i + lq.len()) == lq;
        assert(h.subrange(i, i + lq.len()) == lq);
    }
}

} // verus!
