//! The symbol grade axis.
use vstd::prelude::*;

use crate::text::{signed_decimal, decimal, string_of};

verus! {

/// Grade of a Material Symbol.
#[derive(Debug, Clone, Copy, PartialEq, Eq, Structural)]
pub enum SymbolGrade {
    Low,
    Normal,
    High,
}

/// The numeric value of each grade.
pub open spec fn grade_value(g: SymbolGrade) -> i32 {
    match g {
        SymbolGrade::Low => -25i32,
        SymbolGrade::Normal => 0,
        SymbolGrade::High => 200,
    }
}

/// The grade with the given value, if any.
pub open spec fn grade_of(v: i32) -> Option<SymbolGrade> {
    if v == -25 {
        Some(SymbolGrade::Low)
    } else if v == 0 {
        Some(SymbolGrade::Normal)
    } else if v == 200 {
        Some(SymbolGrade::High)
    } else {
        None
    }
}

/// Decimal text of each grade.
pub open spec fn grade_text(g: SymbolGrade) -> Seq<char> {
    match g {
        SymbolGrade::Low => seq!['-', '2', '5'],
        SymbolGrade::Normal => seq!['0'],
        SymbolGrade::High => seq!['2', '0', '0'],
    }
}

impl SymbolGrade {
    /// The grade's numeric value.
    pub fn value(self) -> (v: i32)
        ensures
            v == grade_value(self),
    {
        match self {
            SymbolGrade::Low => -25i32,
            SymbolGrade::Normal => 0,
            SymbolGrade::High => 200,
        }
    }

    /// The grade with the given numeric value, if there is one.
    pub fn try_from_value(v: i32) -> (r: Option<SymbolGrade>)
        ensures
            r == grade_of(v),
    {
        if v == -25 {
            Some(SymbolGrade::Low)
        } else if v == 0 {
            Some(SymbolGrade::Normal)
        } else if v == 200 {
            Some(SymbolGrade::High)
        } else {
            None
        }
    }

    /// The numeric value written in decimal.
    pub fn to_text(self) -> (r: String)
        ensures
            r@ == grade_text(self),
    {
        let v = match self {
            SymbolGrade::Low => vec!['-', '2', '5'],
            SymbolGrade::Normal => vec!['0'],
            SymbolGrade::High => vec!['2', '0', '0'],
        };
        assert(v@ == grade_text(self));
        string_of(v.as_slice())
    }
}

/// Every grade maps back to itself through its value, and every value that
/// names a grade is that grade's value.
pub proof fn lemma_grade_value_roundtrip(g: SymbolGrade, v: i32)
    ensures
        grade_of(grade_value(g)) == Some(g),
        grade_of(v) matches Some(h) ==> grade_value(h) == v,
{
}

/// The text of each grade is its value written in decimal, with a `-` for a
/// negative one.
pub proof fn lemma_grade_text_is_decimal(g: SymbolGrade)
    ensures
        grade_text(g) == signed_decimal(grade_value(g) as int),
{
    reveal_with_fuel(decimal, 4);
}

} // verus!
