use vstd::prelude::*;
use vstd::string::StringSliceAdditionalSpecFns;
use crate::input::{Rect, sat_sub};
use crate::layout::{Constraint, Direction, layout_split, split};

verus! {

/// What a project header shows: the project's name, its description and its
/// status badges.
pub struct HeaderConfig<'a> {
    pub name: &'a str,
    pub description: &'a str,
    pub indicators: Vec<(&'a str, bool)>,
}

/// The bytes that the badges take in the header: each label and its ` >> `
/// separator.
pub open spec fn badges_width(indicators: Seq<(&str, bool)>) -> int
    decreases indicators.len(),
{
    if indicators.len() == 0 {
        0
    } else {
        badges_width(indicators.drop_last()) + indicators.last().0.spec_bytes().len() + 4
    }
}

/// The blank run that pushes the description to the header's right edge:
/// the inner width (the area's width less its two border cells) less the
/// badges and the description, not below 0.
pub fn header_filler_width(config: &HeaderConfig, area_width: u16) -> (w: usize)
    requires
        badges_width(config.indicators@) <= usize::MAX,
    ensures
        w == sat_sub(
            sat_sub(sat_sub(area_width as int, 2), badges_width(config.indicators@)),
            config.description.spec_bytes().len() as usize as int,
        ),
{
    let n = config.indicators.len();
    let mut status_width: usize = 0;
    let mut i: usize = 0;
    while i < n
        invariant
            n == config.indicators@.len(),
            i <= n,
            status_width == badges_width(config.indicators@.take(i as int)),
            badges_width(config.indicators@) <= usize::MAX,
        decreases n - i,
    {
        proof {
            assert(config.indicators@.take(i + 1).drop_last() =~= config.indicators@.take(i as int));
            lemma_badges_width_prefix(config.indicators@, i + 1);
        }
        status_width = status_width + config.indicators[i].0.len() + 4;
        i += 1;
    }
    assert(config.indicators@.take(n as int) =~= config.indicators@);
    let desc_width = config.description.len();
    let inner_width = (area_width as usize).saturating_sub(2);
    inner_width.saturating_sub(status_width).saturating_sub(desc_width)
}

proof fn lemma_badges_width_prefix(s: Seq<(&str, bool)>, k: int)
    requires
        0 <= k <= s.len(),
    ensures
        badges_width(s.take(k)) <= badges_width(s),
    decreases s.len(),
{
    if k < s.len() {
        assert(s.drop_last().take(k) =~= s.take(k));
        lemma_badges_width_prefix(s.drop_last(), k);
    } else {
        assert(s.take(k) =~= s);
    }
}

/// The three constraints that center a part of `p` percent.
pub open spec fn centered(p: u16) -> Seq<Constraint> {
    let side = ((100 - p) / 2) as u16;
    seq![Constraint::Percentage(side), Constraint::Percentage(p), Constraint::Percentage(side)]
}

fn centered_constraints(p: u16) -> (v: Vec<Constraint>)
    requires
        p <= 100,
    ensures
        v@ == centered(p),
{
    let side = (100 - p) / 2;
    let mut v: Vec<Constraint> = Vec::new();
    v.push(Constraint::Percentage(side));
    v.push(Constraint::Percentage(p));
    v.push(Constraint::Percentage(side));
    v
}

/// The middle of `r`: `perc_y` percent of its height, centered, and of that
/// band `perc_x` percent of its width, centered.
pub fn centered_rect(perc_x: u16, perc_y: u16, r: Rect) -> (c: Rect)
    requires
        perc_x <= 100,
        perc_y <= 100,
    ensures
        c == layout_split(
            Direction::Horizontal,
            centered(perc_x),
            layout_split(Direction::Vertical, centered(perc_y), r)[1],
        )[1],
{
    let popup_layout = split(Direction::Vertical, &centered_constraints(perc_y), r);
    let row = split(Direction::Horizontal, &centered_constraints(perc_x), popup_layout[1]);
    row[1]
}

} // verus!
