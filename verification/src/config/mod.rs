//! Validated configuration: defaults applied, enumerated settings checked,
//! blank icon names dropped.
use vstd::prelude::*;

use crate::kotlin::class_view;
use crate::text::{
    chars_of, decimal, extend_chars, is_blank, push_decimal, push_signed_decimal, signed_decimal,
    string_of, trim_start_index,
};
use raw_config::RawConfig;
use symbol_grade::{grade_of, SymbolGrade};
use symbol_name::SymbolName;
use symbol_optical_size::{optical_size_of, SymbolOpticalSize};
use symbol_style::{style_from_name, SymbolStyle};
use symbol_weight::{weight_of, SymbolWeight};

pub mod raw_config;
pub mod symbol_grade;
pub mod symbol_name;
pub mod symbol_optical_size;
pub mod symbol_style;
pub mod symbol_weight;

verus! {

/// Why a configuration was refused.
#[derive(Debug, PartialEq, Eq)]
pub enum ConfigError {
    /// The style is not one of Outlined, Rounded, Sharp.
    InvalidStyle(String),
    /// The weight is not one of 100, 200, 300, 400, 500, 600, 700.
    InvalidWeight(u32),
    /// The grade is not one of -25, 0, 200.
    InvalidGrade(i32),
    /// The optical size is not one of 20, 24, 40, 48.
    InvalidOpticalSize(u32),
    /// No icon is listed at all.
    NoIcons,
    /// Every listed icon name is blank.
    EmptyIconNames,
}

/// The text with which a configuration file is refused.
pub open spec fn message_spec(e: ConfigError) -> Seq<char> {
    match e {
        ConfigError::InvalidStyle(s) => "Invalid style: '"@ + s@
            + "', must be one of Outlined, Rounded, Sharp"@,
        ConfigError::InvalidWeight(w) => "Invalid weight: '"@ + decimal(w as nat)
            + "', must be one of 100, 200, 300, 400, 500, 600, 700"@,
        ConfigError::InvalidGrade(g) => "Invalid grade: '"@ + signed_decimal(g as int)
            + "', must be one of -25, 0, 200"@,
        ConfigError::InvalidOpticalSize(o) => "Invalid optical_size: '"@ + decimal(o as nat)
            + "', must be one of 20, 24, 40, 48"@,
        ConfigError::NoIcons => "No icons specified in config"@,
        ConfigError::EmptyIconNames => "Empty icon names"@,
    }
}

/// The text with which a settings file is refused.
pub open spec fn settings_message_spec(e: ConfigError) -> Seq<char> {
    match e {
        ConfigError::InvalidStyle(s) => "Invalid style '"@ + s@
            + "': must be one of Outlined, Rounded, Sharp"@,
        ConfigError::InvalidWeight(w) => "Invalid weight '"@ + decimal(w as nat)
            + "': must be one of 100, 200, 300, 400, 500, 600, 700"@,
        ConfigError::InvalidGrade(g) => "Invalid grade '"@ + signed_decimal(g as int)
            + "': must be one of -25, 0, 200"@,
        ConfigError::InvalidOpticalSize(o) => "Invalid optical_size '"@ + decimal(o as nat)
            + "': must be one of 20, 24, 40, 48"@,
        ConfigError::NoIcons => "No icons specified in config"@,
        ConfigError::EmptyIconNames => "Empty icon names"@,
    }
}

fn text_of(parts_before: &str, middle: &[char], after: &str) -> (r: String)
    ensures
        r@ == parts_before@ + middle@ + after@,
{
    let mut out = chars_of(parts_before);
    extend_chars(&mut out, middle);
    extend_chars(&mut out, chars_of(after).as_slice());
    string_of(out.as_slice())
}

impl ConfigError {
    /// The message with which `Config::from_raw` refuses a configuration file.
    pub fn message(&self) -> (r: String)
        ensures
            r@ == message_spec(*self),
    {
        match self {
            ConfigError::InvalidStyle(s) => text_of(
                "Invalid style: '",
                chars_of(s.as_str()).as_slice(),
                "', must be one of Outlined, Rounded, Sharp",
            ),
            ConfigError::InvalidWeight(w) => {
                let mut d: Vec<char> = Vec::new();
                push_decimal(&mut d, *w as u64);
                text_of(
                    "Invalid weight: '",
                    d.as_slice(),
                    "', must be one of 100, 200, 300, 400, 500, 600, 700",
                )
            },
            ConfigError::InvalidGrade(g) => {
                let mut d: Vec<char> = Vec::new();
                push_signed_decimal(&mut d, *g as i64);
                text_of("Invalid grade: '", d.as_slice(), "', must be one of -25, 0, 200")
            },
            ConfigError::InvalidOpticalSize(o) => {
                let mut d: Vec<char> = Vec::new();
                push_decimal(&mut d, *o as u64);
                text_of("Invalid optical_size: '", d.as_slice(), "', must be one of 20, 24, 40, 48")
            },
            ConfigError::NoIcons => "No icons specified in config".to_owned(),
            ConfigError::EmptyIconNames => "Empty icon names".to_owned(),
        }
    }

    /// The message with which `settings::Config::resolve` refuses a settings file.
    pub fn settings_message(&self) -> (r: String)
        ensures
            r@ == settings_message_spec(*self),
    {
        match self {
            ConfigError::InvalidStyle(s) => text_of(
                "Invalid style '",
                chars_of(s.as_str()).as_slice(),
                "': must be one of Outlined, Rounded, Sharp",
            ),
            ConfigError::InvalidWeight(w) => {
                let mut d: Vec<char> = Vec::new();
                push_decimal(&mut d, *w as u64);
                text_of(
                    "Invalid weight '",
                    d.as_slice(),
                    "': must be one of 100, 200, 300, 400, 500, 600, 700",
                )
            },
            ConfigError::InvalidGrade(g) => {
                let mut d: Vec<char> = Vec::new();
                push_signed_decimal(&mut d, *g as i64);
                text_of("Invalid grade '", d.as_slice(), "': must be one of -25, 0, 200")
            },
            ConfigError::InvalidOpticalSize(o) => {
                let mut d: Vec<char> = Vec::new();
                push_decimal(&mut d, *o as u64);
                text_of("Invalid optical_size '", d.as_slice(), "': must be one of 20, 24, 40, 48")
            },
            ConfigError::NoIcons => "No icons specified in config".to_owned(),
            ConfigError::EmptyIconNames => "Empty icon names".to_owned(),
        }
    }
}

/// Validated configuration with all defaults applied and icon names normalized.
/// Every field is a concrete value — no Options remain.
pub struct Config {
    pub style: SymbolStyle,
    pub fill: bool,
    pub weight: SymbolWeight,
    pub grade: SymbolGrade,
    pub optical_size: SymbolOpticalSize,
    pub symbol_names: Vec<SymbolName>,
    pub compose_package: String,
    pub compose_output_dir: String,
    pub compose_upper_camel_fields: bool,
    pub compose_extension_class: Option<String>,
}

/// The style a raw setting selects: Rounded when absent, `None` when unknown.
pub open spec fn style_choice(style: Option<String>) -> Option<SymbolStyle> {
    match style {
        Some(s) => style_from_name(s@),
        None => Some(SymbolStyle::Rounded),
    }
}

/// The weight a raw setting selects: 400 when absent, `None` when unknown.
pub open spec fn weight_choice(weight: Option<u32>) -> Option<SymbolWeight> {
    match weight {
        Some(w) => weight_of(w),
        None => Some(SymbolWeight::W400),
    }
}

/// The grade a raw setting selects: 0 when absent, `None` when unknown.
pub open spec fn grade_choice(grade: Option<i32>) -> Option<SymbolGrade> {
    match grade {
        Some(g) => grade_of(g),
        None => Some(SymbolGrade::Normal),
    }
}

/// The optical size a raw setting selects: 24 when absent, `None` when unknown.
pub open spec fn optical_size_choice(size: Option<u32>) -> Option<SymbolOpticalSize> {
    match size {
        Some(o) => optical_size_of(o),
        None => Some(SymbolOpticalSize::Dp24),
    }
}

/// The icon names that are not blank (empty or whitespace only), in order.
pub open spec fn nonblank_names(names: Seq<Seq<char>>) -> Seq<Seq<char>>
    decreases names.len(),
{
    if names.len() == 0 {
        seq![]
    } else {
        let rest = nonblank_names(names.drop_last());
        if is_blank(names.last()) {
            rest
        } else {
            rest.push(names.last())
        }
    }
}

/// Views of a list of strings.
pub open spec fn string_views(v: Seq<String>) -> Seq<Seq<char>> {
    v.map_values(|s: String| s@)
}

/// Views of a list of symbol names.
pub open spec fn name_views(v: Seq<SymbolName>) -> Seq<Seq<char>> {
    v.map_values(|s: SymbolName| s@)
}

/// The output directory a raw setting selects: `"."` when absent or empty.
pub open spec fn output_dir_choice(dir: Option<String>) -> Seq<char> {
    match dir {
        Some(d) => if d@.len() > 0 {
            d@
        } else {
            seq!['.']
        },
        None => seq!['.'],
    }
}

/// Whether a name is blank.
fn name_is_blank(s: &String) -> (b: bool)
    ensures
        b == is_blank(s@),
{
    let v = chars_of(s.as_str());
    let k = trim_start_index(v.as_slice());
    k == v.len()
}

/// The icons whose names are not blank, in order.
fn nonblank_symbol_names(icons: &Vec<String>) -> (r: Vec<SymbolName>)
    ensures
        name_views(r@) == nonblank_names(string_views(icons@)),
{
    let mut out: Vec<SymbolName> = Vec::new();
    let mut i: usize = 0;
    while i < icons.len()
        invariant
            i <= icons@.len(),
            name_views(out@) == nonblank_names(string_views(icons@).take(i as int)),
        decreases icons.len() - i,
    {
        let ghost before = out@;
        let ghost prefix = string_views(icons@).take(i + 1);
        assert(prefix.drop_last() == string_views(icons@).take(i as int));
        assert(prefix.last() == icons@[i as int]@);
        if !name_is_blank(&icons[i]) {
            let name = SymbolName::new(icons[i].clone());
            out.push(name);
            assert(name_views(out@) =~= name_views(before).push(icons@[i as int]@));
        }
        i = i + 1;
    }
    assert(string_views(icons@).take(icons@.len() as int) == string_views(icons@));
    out
}

fn copy_optional(s: &Option<String>) -> (r: Option<String>)
    ensures
        r == *s,
{
    match s {
        Some(x) => Some(x.clone()),
        None => None,
    }
}

impl Config {
    /// Validates a raw configuration: applies the defaults, checks the style,
    /// weight, grade and optical size (in that order), and keeps the icon names
    /// that are not blank, of which there must be at least one.
    pub fn from_raw(raw: RawConfig) -> (r: Result<Config, ConfigError>)
        ensures
            match r {
                Err(ConfigError::InvalidStyle(s)) => raw.style == Some(s) && style_choice(
                    raw.style,
                ) is None,
                Err(ConfigError::InvalidWeight(w)) => style_choice(raw.style) is Some
                    && raw.weight == Some(w) && weight_choice(raw.weight) is None,
                Err(ConfigError::InvalidGrade(g)) => style_choice(raw.style) is Some
                    && weight_choice(raw.weight) is Some && raw.grade == Some(g) && grade_choice(
                    raw.grade,
                ) is None,
                Err(ConfigError::InvalidOpticalSize(o)) => style_choice(raw.style) is Some
                    && weight_choice(raw.weight) is Some && grade_choice(raw.grade) is Some
                    && raw.optical_size == Some(o) && optical_size_choice(raw.optical_size) is None,
                Err(ConfigError::EmptyIconNames) => style_choice(raw.style) is Some
                    && weight_choice(raw.weight) is Some && grade_choice(raw.grade) is Some
                    && optical_size_choice(raw.optical_size) is Some && nonblank_names(
                    string_views(raw.icons@),
                ).len() == 0,
                Err(ConfigError::NoIcons) => false,
                Ok(cfg) => {
                    &&& style_choice(raw.style) == Some(cfg.style)
                    &&& weight_choice(raw.weight) == Some(cfg.weight)
                    &&& grade_choice(raw.grade) == Some(cfg.grade)
                    &&& optical_size_choice(raw.optical_size) == Some(cfg.optical_size)
                    &&& cfg.fill == raw.fill.unwrap_or(false)
                    &&& name_views(cfg.symbol_names@) == nonblank_names(string_views(raw.icons@))
                    &&& cfg.symbol_names@.len() > 0
                    &&& cfg.compose_package == raw.compose_package
                    &&& cfg.compose_output_dir@ == output_dir_choice(raw.compose_output_dir)
                    &&& cfg.compose_upper_camel_fields == raw.compose_upper_camel_fields.unwrap_or(
                        false,
                    )
                    &&& cfg.compose_extension_class == raw.compose_extension_class
                },
            },
    {
        let style = match &raw.style {
            Some(s) => match SymbolStyle::parse_name(s.as_str()) {
                Some(st) => st,
                None => {
                    return Err(ConfigError::InvalidStyle(s.clone()));
                },
            },
            None => SymbolStyle::Rounded,
        };
        let fill = match raw.fill {
            Some(f) => f,
            None => false,
        };
        let weight = match raw.weight {
            Some(w) => match SymbolWeight::try_from_value(w) {
                Some(x) => x,
                None => {
                    return Err(ConfigError::InvalidWeight(w));
                },
            },
            None => SymbolWeight::W400,
        };
        let grade = match raw.grade {
            Some(g) => match SymbolGrade::try_from_value(g) {
                Some(x) => x,
                None => {
                    return Err(ConfigError::InvalidGrade(g));
                },
            },
            None => SymbolGrade::Normal,
        };
        let optical_size = match raw.optical_size {
            Some(o) => match SymbolOpticalSize::try_from_value(o) {
                Some(x) => x,
                None => {
                    return Err(ConfigError::InvalidOpticalSize(o));
                },
            },
            None => SymbolOpticalSize::Dp24,
        };
        let symbol_names = nonblank_symbol_names(&raw.icons);
        if symbol_names.len() == 0 {
            return Err(ConfigError::EmptyIconNames);
        }
        let compose_output_dir = match &raw.compose_output_dir {
            Some(d) => if !d.as_str().is_empty() {
                d.clone()
            } else {
                string_of(vec!['.'].as_slice())
            },
            None => string_of(vec!['.'].as_slice()),
        };
        let upper = match raw.compose_upper_camel_fields {
            Some(u) => u,
            None => false,
        };
        Ok(
            Config {
                style,
                fill,
                weight,
                grade,
                optical_size,
                symbol_names,
                compose_package: raw.compose_package,
                compose_output_dir,
                compose_upper_camel_fields: upper,
                compose_extension_class: copy_optional(&raw.compose_extension_class),
            },
        )
    }
}

} // verus!
