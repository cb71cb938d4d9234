//! The configuration file's contents as they are read, before validation.
use vstd::prelude::*;

verus! {

/// Configuration parsed from the config file, before validation: every
/// setting but the icon list and the package is optional.
pub struct RawConfig {
    pub style: Option<String>,
    pub fill: Option<bool>,
    pub weight: Option<u32>,
    pub grade: Option<i32>,
    pub optical_size: Option<u32>,
    pub icons: Vec<String>,
    pub compose_package: String,
    pub compose_output_dir: Option<String>,
    pub compose_upper_camel_fields: Option<bool>,
    pub compose_extension_class: Option<String>,
}

} // verus!
