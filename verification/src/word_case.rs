//! Word-case conversions of identifiers, computed by the `heck` crate.
use vstd::prelude::*;

verus! {

/// What `heck::ToUpperCamelCase::to_upper_camel_case` returns for a string.
pub uninterp spec fn upper_camel_case_of(s: Seq<char>) -> Seq<char>;

/// What `heck::ToSnakeCase::to_snake_case` returns for a string.
pub uninterp spec fn snake_case_of(s: Seq<char>) -> Seq<char>;

/// Calls `heck::ToUpperCamelCase::to_upper_camel_case`. Its result is the
/// named value `upper_camel_case_of(s@)`; the one fact stated besides is that
/// the empty string maps to the empty string (heck's word loop emits nothing
/// when the input holds no characters).
#[verifier::external_body]
pub(crate) fn upper_camel_case(s: &str) -> (r: String)
    ensures
        r@ == upper_camel_case_of(s@),
        s@.len() == 0 ==> r@.len() == 0,
{
    heck::ToUpperCamelCase::to_upper_camel_case(s)
}

/// Calls `heck::ToSnakeCase::to_snake_case`. Its result is the named value
/// `snake_case_of(s@)`; the empty string maps to the empty string.
#[verifier::external_body]
pub(crate) fn snake_case(s: &str) -> (r: String)
    ensures
        r@ == snake_case_of(s@),
        s@.len() == 0 ==> r@.len() == 0,
{
    heck::ToSnakeCase::to_snake_case(s)
}

} // verus!
