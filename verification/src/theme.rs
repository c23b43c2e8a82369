use vstd::prelude::*;
use crate::color::{Color, hex_color, hex_rgb};
use crate::json::{JsonValue, json_parse, json_member, json_element, json_text, parse_json};

verus! {

/// The dashboard's colors, read from a Material-style scheme file.
#[derive(Debug, PartialEq, Eq, Clone, Copy, Structural)]
pub struct Theme {
    pub bg: Color,
    pub fg: Color,
    pub surface: Color,
    pub border_inactive: Color,
    pub border_active: Color,
    pub primary: Color,
    pub secondary: Color,
    pub text: Color,
    pub dim: Color,
    pub highlight: Color,
    pub selection: Color,
    pub brand: Color,
    pub error: Color,
    pub success: Color,
}

/// The color of a hex string, `Reset` where it does not read as one.
pub open spec fn hex_or_reset(s: Seq<char>) -> Color {
    match hex_color(s) {
        Some((r, g, b)) => Color::Rgb(r, g, b),
        None => Color::Reset,
    }
}

/// The document that a scheme text holds: what the JSON parser reads from it,
/// `Null` where it reads nothing.
pub open spec fn scheme_doc(text: Seq<char>) -> JsonValue {
    match json_parse(text) {
        Some(v) => v,
        None => JsonValue::Null,
    }
}

/// The `colors` object of a scheme document: that of its first element when
/// the document is an array, its own otherwise (`Null` where absent).
pub open spec fn doc_colors(doc: JsonValue) -> JsonValue {
    if doc is Array {
        json_member(json_element(doc, 0), "colors"@)
    } else {
        json_member(doc, "colors"@)
    }
}

/// The `colors` object of a scheme text.
pub open spec fn scheme_colors(text: Seq<char>) -> JsonValue {
    doc_colors(scheme_doc(text))
}

/// The color named `key` in `colors`, or that of `fallback` where `colors`
/// holds no string under `key`.
pub open spec fn theme_color(colors: JsonValue, key: Seq<char>, fallback: Seq<char>) -> Color {
    match json_text(json_member(colors, key)) {
        Some(h) => hex_or_reset(h),
        None => hex_or_reset(fallback),
    }
}

/// The theme that a scheme document describes.
pub open spec fn theme_of_doc(doc: JsonValue) -> Theme {
    let c = doc_colors(doc);
    Theme {
        bg: theme_color(c, "background"@, "#0D141B"@),
        fg: theme_color(c, "onSurface"@, "#DCE3EE"@),
        surface: theme_color(c, "surfaceContainer"@, "#192028"@),
        border_inactive: theme_color(c, "outlineVariant"@, "#3F4853"@),
        border_active: theme_color(c, "primary"@, "#9BCAFF"@),
        primary: theme_color(c, "primary"@, "#9BCAFF"@),
        secondary: theme_color(c, "secondary"@, "#B8C6EA"@),
        text: theme_color(c, "onSurfaceVariant"@, "#BEC7D5"@),
        dim: theme_color(c, "outline"@, "#89919E"@),
        highlight: theme_color(c, "primaryContainer"@, "#004A7A"@),
        selection: theme_color(c, "surfaceVariant"@, "#3F4853"@),
        brand: theme_color(c, "brand"@, "#A0CBF4"@),
        error: theme_color(c, "error"@, "#FBB3BC"@),
        success: theme_color(c, "success"@, "#67DBB3"@),
    }
}

/// The theme that a scheme text describes.
pub open spec fn theme_of_text(text: Seq<char>) -> Theme {
    theme_of_doc(scheme_doc(text))
}

fn color_of(colors: Option<&JsonValue>, key: &str, fallback: &str) -> (c: Color)
    ensures
        c == theme_color(
            match colors {
                Some(v) => *v,
                None => JsonValue::Null,
            },
            key@,
            fallback@,
        ),
{
    let member = match colors {
        Some(v) => v.member(key),
        None => None,
    };
    let text = match member {
        Some(m) => m.as_str(),
        None => None,
    };
    match text {
        Some(h) => Theme::parse_hex(h),
        None => Theme::parse_hex(fallback),
    }
}

impl Theme {
    /// The theme described by the text of a scheme file (the text of an
    /// unreadable file is empty): the text is parsed as JSON, and what is
    /// read (`Null` where nothing is) goes to `from_document`.
    pub fn from_json(content: &str) -> (t: Theme)
        ensures
            t == theme_of_text(content@),
    {
        let doc = match parse_json(content) {
            Some(v) => v,
            None => JsonValue::Null,
        };
        Theme::from_document(&doc)
    }

    /// The theme that a scheme document describes. Each color comes from the
    /// document's `colors` object, or from a built-in default where the
    /// object lacks it.
    pub fn from_document(doc: &JsonValue) -> (t: Theme)
        ensures
            t == theme_of_doc(*doc),
    {
        let colors = if doc.is_array() {
            match doc.element(0) {
                Some(first) => first.member("colors"),
                None => None,
            }
        } else {
            doc.member("colors")
        };
        let ghost c = doc_colors(*doc);
        assert(c == match colors {
            Some(v) => *v,
            None => JsonValue::Null,
        });
        Theme {
            bg: color_of(colors, "background", "#0D141B"),
            fg: color_of(colors, "onSurface", "#DCE3EE"),
            surface: color_of(colors, "surfaceContainer", "#192028"),
            border_inactive: color_of(colors, "outlineVariant", "#3F4853"),
            border_active: color_of(colors, "primary", "#9BCAFF"),
            primary: color_of(colors, "primary", "#9BCAFF"),
            secondary: color_of(colors, "secondary", "#B8C6EA"),
            text: color_of(colors, "onSurfaceVariant", "#BEC7D5"),
            dim: color_of(colors, "outline", "#89919E"),
            highlight: color_of(colors, "primaryContainer", "#004A7A"),
            selection: color_of(colors, "surfaceVariant", "#3F4853"),
            brand: color_of(colors, "brand", "#A0CBF4"),
            error: color_of(colors, "error", "#FBB3BC"),
            success: color_of(colors, "success", "#67DBB3"),
        }
    }

    /// The color of a `#RRGGBB` string; `Reset` where it does not read as one.
    pub fn parse_hex(hex: &str) -> (c: Color)
        ensures
            c == hex_or_reset(hex@),
    {
        match hex_rgb(hex) {
            Some((r, g, b)) => Color::Rgb(r, g, b),
            None => Color::Reset,
        }
    }

    /// Replaces the theme with the one that the scheme text now describes.
    pub fn theme_refresh(&mut self, content: &str)
        ensures
            *final(self) == theme_of_text(content@),
    {
        *self = Theme::from_json(content);
    }
}

/// A scheme text that is not JSON gives the built-in colors.
pub proof fn law_unreadable_scheme_gives_defaults(text: Seq<char>)
    requires
        json_parse(text) is None,
    ensures
        theme_of_text(text).bg == hex_or_reset("#0D141B"@),
        theme_of_text(text).fg == hex_or_reset("#DCE3EE"@),
        theme_of_text(text).surface == hex_or_reset("#192028"@),
        theme_of_text(text).border_inactive == hex_or_reset("#3F4853"@),
        theme_of_text(text).border_active == hex_or_reset("#9BCAFF"@),
        theme_of_text(text).primary == hex_or_reset("#9BCAFF"@),
        theme_of_text(text).secondary == hex_or_reset("#B8C6EA"@),
        theme_of_text(text).text == hex_or_reset("#BEC7D5"@),
        theme_of_text(text).dim == hex_or_reset("#89919E"@),
        theme_of_text(text).highlight == hex_or_reset("#004A7A"@),
        theme_of_text(text).selection == hex_or_reset("#3F4853"@),
        theme_of_text(text).brand == hex_or_reset("#A0CBF4"@),
        theme_of_text(text).error == hex_or_reset("#FBB3BC"@),
        theme_of_text(text).success == hex_or_reset("#67DBB3"@),
{
}

/// A scheme document wrapped in an array (as the first of its elements)
/// gives the same theme as the document itself, unless that document is an
/// array too.
pub proof fn law_wrapped_document(items: Vec<JsonValue>)
    requires
        items@.len() > 0,
        !(items@[0] is Array),
    ensures
        theme_of_doc(JsonValue::Array(items)) == theme_of_doc(items@[0]),
{
}

/// The border of the active pane always has the primary color.
pub proof fn law_active_border_is_primary(text: Seq<char>)
    ensures
        theme_of_text(text).border_active == theme_of_text(text).primary,
{
}

/// Each color of the theme reads its own key of the scheme's `colors`
/// object and nothing else: the string found under that key (`background`
/// for `bg`, `onSurface` for `fg`, `surfaceContainer` for `surface`,
/// `outlineVariant` for `border_inactive`, `primary` for `border_active` and
/// `primary`, `secondary`, `onSurfaceVariant` for `text`, `outline` for `dim`,
/// `primaryContainer` for `highlight`, `surfaceVariant` for `selection`,
/// `brand`, `error`, `success`) read as a hex color, or the built-in color
/// where no string is there.
pub proof fn law_each_color_reads_its_key(doc: JsonValue)
    ensures
        ({
            let v = json_text(json_member(doc_colors(doc), "background"@));
            theme_of_doc(doc).bg == match v {
                Some(s) => hex_or_reset(s),
                None => hex_or_reset("#0D141B"@),
            }
        }),
        ({
            let v = json_text(json_member(doc_colors(doc), "onSurface"@));
            theme_of_doc(doc).fg == match v {
                Some(s) => hex_or_reset(s),
                None => hex_or_reset("#DCE3EE"@),
            }
        }),
        ({
            let v = json_text(json_member(doc_colors(doc), "surfaceContainer"@));
            theme_of_doc(doc).surface == match v {
                Some(s) => hex_or_reset(s),
                None => hex_or_reset("#192028"@),
            }
        }),
        ({
            let v = json_text(json_member(doc_colors(doc), "outlineVariant"@));
            theme_of_doc(doc).border_inactive == match v {
                Some(s) => hex_or_reset(s),
                None => hex_or_reset("#3F4853"@),
            }
        }),
        ({
            let v = json_text(json_member(doc_colors(doc), "primary"@));
            theme_of_doc(doc).border_active == match v {
                Some(s) => hex_or_reset(s),
                None => hex_or_reset("#9BCAFF"@),
            }
        }),
        ({
            let v = json_text(json_member(doc_colors(doc), "primary"@));
            theme_of_doc(doc).primary == match v {
                Some(s) => hex_or_reset(s),
                None => hex_or_reset("#9BCAFF"@),
            }
        }),
        ({
            let v = json_text(json_member(doc_colors(doc), "secondary"@));
            theme_of_doc(doc).secondary == match v {
                Some(s) => hex_or_reset(s),
                None => hex_or_reset("#B8C6EA"@),
            }
        }),
        ({
            let v = json_text(json_member(doc_colors(doc), "onSurfaceVariant"@));
            theme_of_doc(doc).text == match v {
                Some(s) => hex_or_reset(s),
                None => hex_or_reset("#BEC7D5"@),
            }
        }),
        ({
            let v = json_text(json_member(doc_colors(doc), "outline"@));
            theme_of_doc(doc).dim == match v {
                Some(s) => hex_or_reset(s),
                None => hex_or_reset("#89919E"@),
            }
        }),
        ({
            let v = json_text(json_member(doc_colors(doc), "primaryContainer"@));
            theme_of_doc(doc).highlight == match v {
                Some(s) => hex_or_reset(s),
                None => hex_or_reset("#004A7A"@),
            }
        }),
        ({
            let v = json_text(json_member(doc_colors(doc), "surfaceVariant"@));
            theme_of_doc(doc).selection == match v {
                Some(s) => hex_or_reset(s),
                None => hex_or_reset("#3F4853"@),
            }
        }),
        ({
            let v = json_text(json_member(doc_colors(doc), "brand"@));
            theme_of_doc(doc).brand == match v {
                Some(s) => hex_or_reset(s),
                None => hex_or_reset("#A0CBF4"@),
            }
        }),
        ({
            let v = json_text(json_member(doc_colors(doc), "error"@));
            theme_of_doc(doc).error == match v {
                Some(s) => hex_or_reset(s),
                None => hex_or_reset("#FBB3BC"@),
            }
        }),
        ({
            let v = json_text(json_member(doc_colors(doc), "success"@));
            theme_of_doc(doc).success == match v {
                Some(s) => hex_or_reset(s),
                None => hex_or_reset("#67DBB3"@),
            }
        }),
{
}

/// The secondary color depends only on what the scheme's `colors` object
/// holds under `secondary`: two documents that agree there give the same
/// secondary color, whatever their other keys hold.
pub proof fn law_secondary_ignores_other_keys(a: JsonValue, b: JsonValue)
    requires
        json_text(json_member(doc_colors(a), "secondary"@)) == json_text(json_member(doc_colors(b), "secondary"@)),
    ensures
        theme_of_doc(a).secondary == theme_of_doc(b).secondary,
{
}

} // verus!
