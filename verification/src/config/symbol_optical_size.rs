//! The symbol optical-size axis.
use vstd::prelude::*;

use crate::text::{decimal, string_of};

verus! {

/// Optical size of a Material Symbol, in dp.
#[derive(Debug, Clone, Copy, PartialEq, Eq, Structural)]
pub enum SymbolOpticalSize {
    Dp20,
    Dp24,
    Dp40,
    Dp48,
}

/// The numeric value of each optical size.
pub open spec fn optical_size_value(o: SymbolOpticalSize) -> u32 {
    match o {
        SymbolOpticalSize::Dp20 => 20,
        SymbolOpticalSize::Dp24 => 24,
        SymbolOpticalSize::Dp40 => 40,
        SymbolOpticalSize::Dp48 => 48,
    }
}

/// The optical size with the given value, if any.
pub open spec fn optical_size_of(v: u32) -> Option<SymbolOpticalSize> {
    if v == 20 {
        Some(SymbolOpticalSize::Dp20)
    } else if v == 24 {
        Some(SymbolOpticalSize::Dp24)
    } else if v == 40 {
        Some(SymbolOpticalSize::Dp40)
    } else if v == 48 {
        Some(SymbolOpticalSize::Dp48)
    } else {
        None
    }
}

/// Decimal text of each optical size.
pub open spec fn optical_size_text(o: SymbolOpticalSize) -> Seq<char> {
    match o {
        SymbolOpticalSize::Dp20 => seq!['2', '0'],
        SymbolOpticalSize::Dp24 => seq!['2', '4'],
        SymbolOpticalSize::Dp40 => seq!['4', '0'],
        SymbolOpticalSize::Dp48 => seq!['4', '8'],
    }
}

impl SymbolOpticalSize {
    /// The optical size's numeric value.
    pub fn value(self) -> (v: u32)
        ensures
            v == optical_size_value(self),
    {
        match self {
            SymbolOpticalSize::Dp20 => 20,
            SymbolOpticalSize::Dp24 => 24,
            SymbolOpticalSize::Dp40 => 40,
            SymbolOpticalSize::Dp48 => 48,
        }
    }

    /// The optical size with the given numeric value, if there is one.
    pub fn try_from_value(v: u32) -> (r: Option<SymbolOpticalSize>)
        ensures
            r == optical_size_of(v),
    {
        if v == 20 {
            Some(SymbolOpticalSize::Dp20)
        } else if v == 24 {
            Some(SymbolOpticalSize::Dp24)
        } else if v == 40 {
            Some(SymbolOpticalSize::Dp40)
        } else if v == 48 {
            Some(SymbolOpticalSize::Dp48)
        } else {
            None
        }
    }

    /// The numeric value written in decimal.
    pub fn to_text(self) -> (r: String)
        ensures
            r@ == optical_size_text(self),
    {
        let v = match self {
            SymbolOpticalSize::Dp20 => vec!['2', '0'],
            SymbolOpticalSize::Dp24 => vec!['2', '4'],
            SymbolOpticalSize::Dp40 => vec!['4', '0'],
            SymbolOpticalSize::Dp48 => vec!['4', '8'],
        };
        assert(v@ == optical_size_text(self));
        string_of(v.as_slice())
    }
}

/// Every optical size maps back to itself through its value, and every value
/// that names an optical size is that size's value.
pub proof fn lemma_optical_size_value_roundtrip(o: SymbolOpticalSize, v: u32)
    ensures
        optical_size_of(optical_size_value(o)) == Some(o),
        optical_size_of(v) matches Some(x) ==> optical_size_value(x) == v,
{
}

/// The text of each value is its number written in decimal.
pub proof fn lemma_optical_size_text_is_decimal(o: SymbolOpticalSize)
    ensures
        optical_size_text(o) == decimal(optical_size_value(o) as nat),
{
    reveal_with_fuel(decimal, 4);
}

} // verus!
