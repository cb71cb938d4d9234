//! The flat settings file format: every enumerated setting is kept as the
//! plain value that was written, once it has been checked.
use vstd::prelude::*;

use crate::config::{output_dir_choice, ConfigError};
use crate::text::{all_ascii, ascii_lower_all, chars_of, string_of};

verus! {

/// Configuration parsed from the settings file.
pub struct Config {
    pub style: Option<String>,
    pub fill: Option<bool>,
    pub weight: Option<u32>,
    pub grade: Option<i32>,
    pub optical_size: Option<u32>,
    pub icons: Vec<String>,
    pub compose_package: String,
    pub compose_output_dir: Option<String>,
}

/// Configuration with every default applied and every setting checked.
pub struct ResolvedConfig {
    pub style: String,
    pub fill: bool,
    pub weight: u32,
    pub grade: i32,
    pub optical_size: u32,
    pub icons: Vec<String>,
    pub compose_package: String,
    pub compose_output_dir: String,
}

/// What `str::to_lowercase` returns for a string (Unicode lowercase mapping).
pub uninterp spec fn lowercase_of(s: Seq<char>) -> Seq<char>;

/// Calls `str::to_lowercase`; its result is the named value `lowercase_of(s@)`.
/// For an ASCII string it is the string with `A`–`Z` mapped to `a`–`z` (the
/// UnicodeData lowercase mapping of those letters; other ASCII characters have
/// none and stay). What it is for other strings is left unsaid.
#[verifier::external_body]
fn to_lowercase(s: &str) -> (r: String)
    ensures
        r@ == lowercase_of(s@),
        all_ascii(s@) ==> r@ == ascii_lower_all(s@),
{
    s.to_lowercase()
}

/// `"rounded"`.
pub open spec fn default_style() -> Seq<char> {
    seq!['r', 'o', 'u', 'n', 'd', 'e', 'd']
}

/// The lowercase style names that are accepted.
pub open spec fn is_known_style_spec(lowered: Seq<char>) -> bool {
    ||| lowered == seq!['o', 'u', 't', 'l', 'i', 'n', 'e', 'd']
    ||| lowered == default_style()
    ||| lowered == seq!['s', 'h', 'a', 'r', 'p']
}

/// Accepted weights.
pub open spec fn is_valid_weight(w: u32) -> bool {
    w == 100 || w == 200 || w == 300 || w == 400 || w == 500 || w == 600 || w == 700
}

/// Accepted grades.
pub open spec fn is_valid_grade(g: i32) -> bool {
    g == -25 || g == 0 || g == 200
}

/// Accepted optical sizes.
pub open spec fn is_valid_optical_size(o: u32) -> bool {
    o == 20 || o == 24 || o == 40 || o == 48
}

/// The style string a setting selects: `"rounded"` when absent.
pub open spec fn style_or_default(style: Option<String>) -> Seq<char> {
    match style {
        Some(s) => s@,
        None => default_style(),
    }
}

/// Whether an already lowercased style name is one of outlined, rounded, sharp.
pub fn is_known_style(lowered: &str) -> (b: bool)
    ensures
        b == is_known_style_spec(lowered@),
{
    let v = chars_of(lowered);
    let outlined = vec!['o', 'u', 't', 'l', 'i', 'n', 'e', 'd'];
    let rounded = vec!['r', 'o', 'u', 'n', 'd', 'e', 'd'];
    let sharp = vec!['s', 'h', 'a', 'r', 'p'];
    assert(outlined@ == seq!['o', 'u', 't', 'l', 'i', 'n', 'e', 'd']);
    assert(rounded@ == default_style());
    assert(sharp@ == seq!['s', 'h', 'a', 'r', 'p']);
    assert(v@.skip(0) == v@);
    crate::text::equals_at(v.as_slice(), 0, outlined.as_slice()) || crate::text::equals_at(
        v.as_slice(),
        0,
        rounded.as_slice(),
    ) || crate::text::equals_at(v.as_slice(), 0, sharp.as_slice())
}

impl Config {
    /// Applies the defaults and checks the settings: style (compared in
    /// lowercase), weight, grade, optical size, in that order, then that at
    /// least one icon is listed.
    pub fn resolve(self) -> (r: Result<ResolvedConfig, ConfigError>)
        ensures
            all_ascii(style_or_default(self.style)) ==> lowercase_of(style_or_default(self.style))
                == ascii_lower_all(style_or_default(self.style)),
            match r {
                Err(ConfigError::InvalidStyle(s)) => s@ == style_or_default(self.style)
                    && !is_known_style_spec(lowercase_of(s@)),
                Err(ConfigError::InvalidWeight(w)) => is_known_style_spec(
                    lowercase_of(style_or_default(self.style)),
                ) && w == self.weight.unwrap_or(400) && !is_valid_weight(w),
                Err(ConfigError::InvalidGrade(g)) => is_known_style_spec(
                    lowercase_of(style_or_default(self.style)),
                ) && is_valid_weight(self.weight.unwrap_or(400)) && g == self.grade.unwrap_or(0)
                    && !is_valid_grade(g),
                Err(ConfigError::InvalidOpticalSize(o)) => is_known_style_spec(
                    lowercase_of(style_or_default(self.style)),
                ) && is_valid_weight(self.weight.unwrap_or(400)) && is_valid_grade(
                    self.grade.unwrap_or(0),
                ) && o == self.optical_size.unwrap_or(24) && !is_valid_optical_size(o),
                Err(ConfigError::NoIcons) => is_known_style_spec(
                    lowercase_of(style_or_default(self.style)),
                ) && is_valid_weight(self.weight.unwrap_or(400)) && is_valid_grade(
                    self.grade.unwrap_or(0),
                ) && is_valid_optical_size(self.optical_size.unwrap_or(24)) && self.icons@.len()
                    == 0,
                Err(ConfigError::EmptyIconNames) => false,
                Ok(rc) => {
                    &&& is_known_style_spec(lowercase_of(style_or_default(self.style)))
                    &&& rc.style@ == style_or_default(self.style)
                    &&& rc.fill == self.fill.unwrap_or(false)
                    &&& rc.weight == self.weight.unwrap_or(400) && is_valid_weight(rc.weight)
                    &&& rc.grade == self.grade.unwrap_or(0) && is_valid_grade(rc.grade)
                    &&& rc.optical_size == self.optical_size.unwrap_or(24) && is_valid_optical_size(
                        rc.optical_size,
                    )
                    &&& self.icons@.len() > 0
                    &&& rc.icons == self.icons
                    &&& rc.compose_package == self.compose_package
                    &&& rc.compose_output_dir@ == output_dir_choice(self.compose_output_dir)
                },
            },
    {
        let style = match self.style {
            Some(s) => s,
            None => {
                let d = vec!['r', 'o', 'u', 'n', 'd', 'e', 'd'];
                assert(d@ == default_style());
                string_of(d.as_slice())
            },
        };
        let lowered = to_lowercase(style.as_str());
        if !is_known_style(lowered.as_str()) {
            return Err(ConfigError::InvalidStyle(style));
        }
        let fill = match self.fill {
            Some(f) => f,
            None => false,
        };
        let weight = match self.weight {
            Some(w) => w,
            None => 400,
        };
        if !(weight == 100 || weight == 200 || weight == 300 || weight == 400 || weight == 500
            || weight == 600 || weight == 700) {
            return Err(ConfigError::InvalidWeight(weight));
        }
        let grade = match self.grade {
            Some(g) => g,
            None => 0,
        };
        if !(grade == -25 || grade == 0 || grade == 200) {
            return Err(ConfigError::InvalidGrade(grade));
        }
        let optical_size = match self.optical_size {
            Some(o) => o,
            None => 24,
        };
        if !(optical_size == 20 || optical_size == 24 || optical_size == 40 || optical_size
            == 48) {
            return Err(ConfigError::InvalidOpticalSize(optical_size));
        }
        if self.icons.len() == 0 {
            return Err(ConfigError::NoIcons);
        }
        let compose_output_dir = match self.compose_output_dir {
            Some(d) => if !d.as_str().is_empty() {
                d
            } else {
                string_of(vec!['.'].as_slice())
            },
            None => string_of(vec!['.'].as_slice()),
        };
        Ok(
            ResolvedConfig {
                style,
                fill,
                weight,
                grade,
                optical_size,
                icons: self.icons,
                compose_package: self.compose_package,
                compose_output_dir,
            },
        )
    }
}

/// The accepted settings are exactly the documented values: weights 100, 200,
/// 300, 400, 500, 600, 700; grades -25, 0, 200; optical sizes 20, 24, 40, 48;
/// and they are the values that name a weight, grade and optical size.
pub proof fn lemma_accepted_values(w: u32, g: i32, o: u32)
    ensures
        is_valid_weight(w) <==> seq![100u32, 200, 300, 400, 500, 600, 700].contains(w),
        is_valid_weight(w) <==> crate::config::symbol_weight::weight_of(w) is Some,
        is_valid_grade(g) <==> seq![-25i32, 0, 200].contains(g),
        is_valid_grade(g) <==> crate::config::symbol_grade::grade_of(g) is Some,
        is_valid_optical_size(o) <==> seq![20u32, 24, 40, 48].contains(o),
        is_valid_optical_size(o) <==> crate::config::symbol_optical_size::optical_size_of(o) is Some,
{
    let ws = seq![100u32, 200, 300, 400, 500, 600, 700];
    let gs = seq![-25i32, 0, 200];
    let os = seq![20u32, 24, 40, 48];
    if is_valid_weight(w) {
        if w == 100 { assert(ws[0] == w); } else if w == 200 { assert(ws[1] == w); }
        else if w == 300 { assert(ws[2] == w); } else if w == 400 { assert(ws[3] == w); }
        else if w == 500 { assert(ws[4] == w); } else if w == 600 { assert(ws[5] == w); }
        else { assert(ws[6] == w); }
    }
    if is_valid_grade(g) {
        if g == -25 { assert(gs[0] == g); } else if g == 0 { assert(gs[1] == g); }
        else { assert(gs[2] == g); }
    }
    if is_valid_optical_size(o) {
        if o == 20 { assert(os[0] == o); } else if o == 24 { assert(os[1] == o); }
        else if o == 40 { assert(os[2] == o); } else { assert(os[3] == o); }
    }
}

/// The default settings (no style, weight, grade or size given) pass every
/// check, and so does each documented weight with the other settings left to
/// their defaults: resolving then fails only for want of icons.
pub proof fn lemma_defaults_accepted(w: u32)
    requires
        seq![100u32, 200, 300, 400, 500, 600, 700].contains(w),
    ensures
        is_known_style_spec(ascii_lower_all(default_style())),
        all_ascii(default_style()),
        is_valid_weight(w),
        is_valid_weight(400),
        is_valid_grade(0),
        is_valid_optical_size(24),
{
    lemma_accepted_values(w, 0, 24);
    assert(ascii_lower_all(default_style()) =~= default_style());
}

} // verus!
