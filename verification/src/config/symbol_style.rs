//! The symbol style axis.
use vstd::prelude::*;

use crate::text::{chars_of, eq_ignore_ascii_case, str_eq_ignore_ascii_case, string_of};

verus! {

/// Style (family) of a Material Symbol.
#[derive(Debug, Clone, Copy, PartialEq, Eq, Structural)]
pub enum SymbolStyle {
    Outlined,
    Rounded,
    Sharp,
}

/// The name of each style, as it is written and displayed.
pub open spec fn style_name(s: SymbolStyle) -> Seq<char> {
    match s {
        SymbolStyle::Outlined => seq!['O', 'u', 't', 'l', 'i', 'n', 'e', 'd'],
        SymbolStyle::Rounded => seq!['R', 'o', 'u', 'n', 'd', 'e', 'd'],
        SymbolStyle::Sharp => seq!['S', 'h', 'a', 'r', 'p'],
    }
}

/// The style whose name equals `s` up to ASCII case, if any.
pub open spec fn style_from_name(s: Seq<char>) -> Option<SymbolStyle> {
    if eq_ignore_ascii_case(s, style_name(SymbolStyle::Outlined)) {
        Some(SymbolStyle::Outlined)
    } else if eq_ignore_ascii_case(s, style_name(SymbolStyle::Rounded)) {
        Some(SymbolStyle::Rounded)
    } else if eq_ignore_ascii_case(s, style_name(SymbolStyle::Sharp)) {
        Some(SymbolStyle::Sharp)
    } else {
        None
    }
}

impl SymbolStyle {
    /// The style's name ("Outlined", "Rounded" or "Sharp").
    pub fn name(self) -> (r: String)
        ensures
            r@ == style_name(self),
    {
        let v = match self {
            SymbolStyle::Outlined => vec!['O', 'u', 't', 'l', 'i', 'n', 'e', 'd'],
            SymbolStyle::Rounded => vec!['R', 'o', 'u', 'n', 'd', 'e', 'd'],
            SymbolStyle::Sharp => vec!['S', 'h', 'a', 'r', 'p'],
        };
        assert(v@ == style_name(self));
        string_of(v.as_slice())
    }

    /// Parses a style name, ignoring ASCII case.
    pub fn parse_name(s: &str) -> (r: Option<SymbolStyle>)
        ensures
            r == style_from_name(s@),
    {
        if str_eq_ignore_ascii_case(s, chars_of(SymbolStyle::Outlined.name().as_str()).as_slice()) {
            Some(SymbolStyle::Outlined)
        } else if str_eq_ignore_ascii_case(s, chars_of(SymbolStyle::Rounded.name().as_str()).as_slice()) {
            Some(SymbolStyle::Rounded)
        } else if str_eq_ignore_ascii_case(s, chars_of(SymbolStyle::Sharp.name().as_str()).as_slice()) {
            Some(SymbolStyle::Sharp)
        } else {
            None
        }
    }
}

/// Every style is read back from its own name.
pub proof fn lemma_style_name_roundtrip(s: SymbolStyle)
    ensures
        style_from_name(style_name(s)) == Some(s),
{
    let o = style_name(SymbolStyle::Outlined);
    let r = style_name(SymbolStyle::Rounded);
    let h = style_name(SymbolStyle::Sharp);
    match s {
        SymbolStyle::Outlined => {
            assert(eq_ignore_ascii_case(o, o));
        },
        SymbolStyle::Rounded => {
            assert(!eq_ignore_ascii_case(r, o));
            assert(eq_ignore_ascii_case(r, r));
        },
        SymbolStyle::Sharp => {
            assert(!eq_ignore_ascii_case(h, o));
            assert(!eq_ignore_ascii_case(h, r)) by {
                assert(crate::text::ascii_lower(h[0]) != crate::text::ascii_lower(r[0]));
            }
            assert(eq_ignore_ascii_case(h, h));
        },
    }
}

/// Every style is accepted under any ASCII casing of its name (for instance
/// `rounded`, `ROUNDED` and `Rounded` all give Rounded).
pub proof fn lemma_style_any_ascii_case(st: SymbolStyle, s: Seq<char>)
    requires
        eq_ignore_ascii_case(s, style_name(st)),
    ensures
        style_from_name(s) == Some(st),
{
    let o = style_name(SymbolStyle::Outlined);
    let r = style_name(SymbolStyle::Rounded);
    let h = style_name(SymbolStyle::Sharp);
    match st {
        SymbolStyle::Outlined => {},
        SymbolStyle::Rounded => {
            assert(s.len() != o.len());
        },
        SymbolStyle::Sharp => {
            assert(s.len() != o.len());
            assert(s.len() != r.len());
        },
    }
}

} // verus!
