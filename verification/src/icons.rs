use vstd::prelude::*;

verus! {

/// The Nerd Font glyphs the dashboard draws with.
pub struct IconSet {
    pub palette: &'static str,
    pub star: &'static str,
    pub smooth_star: &'static str,
    pub hollow_star: &'static str,
    pub badge_star: &'static str,
    pub triangle_right: &'static str,
    pub triangle_down: &'static str,
    pub circle: &'static str,
    pub square: &'static str,
    pub smooth_square: &'static str,
    pub check: &'static str,
    pub warning: &'static str,
    pub error: &'static str,
}

impl IconSet {
    /// The dashboard's glyph set.
    pub fn icons() -> (s: IconSet)
        ensures
            s.palette@ == ""@,
            s.star@ == "󰓎"@,
            s.smooth_star@ == ""@,
            s.hollow_star@ == ""@,
            s.badge_star@ == "󰓏"@,
            s.triangle_right@ == "󰁔"@,
            s.triangle_down@ == "󰁕"@,
            s.circle@ == "󰀀"@,
            s.square@ == "󰝤"@,
            s.smooth_square@ == ""@,
            s.check@ == "󰄬"@,
            s.warning@ == "󰀦"@,
            s.error@ == "󰅚"@,
    {
        IconSet {
            palette: "",
            star: "󰓎",
            smooth_star: "",
            hollow_star: "",
            badge_star: "󰓏",
            triangle_right: "󰁔",
            triangle_down: "󰁕",
            circle: "󰀀",
            square: "󰝤",
            smooth_square: "",
            check: "󰄬",
            warning: "󰀦",
            error: "󰅚",
        }
    }
}

} // verus!
