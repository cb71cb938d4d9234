//! Icon names as written in the configuration.
use vstd::prelude::*;

use crate::word_case::{snake_case, snake_case_of, upper_camel_case, upper_camel_case_of};

verus! {

/// A Material Symbols name as given in the configuration.
#[derive(Debug)]
pub struct SymbolName(String);

impl View for SymbolName {
    type V = Seq<char>;

    closed spec fn view(&self) -> Seq<char> {
        self.0@
    }
}

impl SymbolName {
    /// Wraps a raw icon name.
    pub fn new(raw: String) -> (r: Self)
        ensures
            r@ == raw@,
    {
        SymbolName(raw)
    }

    /// The name as given.
    pub fn as_str(&self) -> (r: &str)
        ensures
            r@ == self@,
    {
        self.0.as_str()
    }

    /// The normalized snake_case name (used in URLs).
    pub fn to_url_name(&self) -> (r: String)
        ensures
            r@ == snake_case_of(self@),
    {
        snake_case(self.0.as_str())
    }

    /// Convert to a PascalCase Kotlin file name (without extension).
    pub fn to_filename(&self) -> (r: String)
        ensures
            r@ == upper_camel_case_of(self@),
    {
        upper_camel_case(self.0.as_str())
    }
}

} // verus!
