//! The symbol weight axis.
use vstd::prelude::*;

use crate::text::{decimal, string_of};

verus! {

/// Stroke weight of a Material Symbol.
#[derive(Debug, Clone, Copy, PartialEq, Eq, Structural)]
pub enum SymbolWeight {
    W100,
    W200,
    W300,
    W400,
    W500,
    W600,
    W700,
}

/// The numeric value of each weight.
pub open spec fn weight_value(w: SymbolWeight) -> u32 {
    match w {
        SymbolWeight::W100 => 100,
        SymbolWeight::W200 => 200,
        SymbolWeight::W300 => 300,
        SymbolWeight::W400 => 400,
        SymbolWeight::W500 => 500,
        SymbolWeight::W600 => 600,
        SymbolWeight::W700 => 700,
    }
}

/// The weight with the given value, if any.
pub open spec fn weight_of(v: u32) -> Option<SymbolWeight> {
    if v == 100 {
        Some(SymbolWeight::W100)
    } else if v == 200 {
        Some(SymbolWeight::W200)
    } else if v == 300 {
        Some(SymbolWeight::W300)
    } else if v == 400 {
        Some(SymbolWeight::W400)
    } else if v == 500 {
        Some(SymbolWeight::W500)
    } else if v == 600 {
        Some(SymbolWeight::W600)
    } else if v == 700 {
        Some(SymbolWeight::W700)
    } else {
        None
    }
}

/// Decimal text of each weight.
pub open spec fn weight_text(w: SymbolWeight) -> Seq<char> {
    match w {
        SymbolWeight::W100 => seq!['1', '0', '0'],
        SymbolWeight::W200 => seq!['2', '0', '0'],
        SymbolWeight::W300 => seq!['3', '0', '0'],
        SymbolWeight::W400 => seq!['4', '0', '0'],
        SymbolWeight::W500 => seq!['5', '0', '0'],
        SymbolWeight::W600 => seq!['6', '0', '0'],
        SymbolWeight::W700 => seq!['7', '0', '0'],
    }
}

impl SymbolWeight {
    /// The weight's numeric value.
    pub fn value(self) -> (v: u32)
        ensures
            v == weight_value(self),
    {
        match self {
            SymbolWeight::W100 => 100,
            SymbolWeight::W200 => 200,
            SymbolWeight::W300 => 300,
            SymbolWeight::W400 => 400,
            SymbolWeight::W500 => 500,
            SymbolWeight::W600 => 600,
            SymbolWeight::W700 => 700,
        }
    }

    /// The weight with the given numeric value, if there is one.
    pub fn try_from_value(v: u32) -> (r: Option<SymbolWeight>)
        ensures
            r == weight_of(v),
    {
        if v == 100 {
            Some(SymbolWeight::W100)
        } else if v == 200 {
            Some(SymbolWeight::W200)
        } else if v == 300 {
            Some(SymbolWeight::W300)
        } else if v == 400 {
            Some(SymbolWeight::W400)
        } else if v == 500 {
            Some(SymbolWeight::W500)
        } else if v == 600 {
            Some(SymbolWeight::W600)
        } else if v == 700 {
            Some(SymbolWeight::W700)
        } else {
            None
        }
    }

    /// The numeric value written in decimal.
    pub fn to_text(self) -> (r: String)
        ensures
            r@ == weight_text(self),
    {
        let d = match self {
            SymbolWeight::W100 => '1',
            SymbolWeight::W200 => '2',
            SymbolWeight::W300 => '3',
            SymbolWeight::W400 => '4',
            SymbolWeight::W500 => '5',
            SymbolWeight::W600 => '6',
            SymbolWeight::W700 => '7',
        };
        let v = vec![d, '0', '0'];
        assert(v@ == weight_text(self));
        string_of(v.as_slice())
    }
}

/// Every weight maps back to itself through its value, and every value that
/// names a weight is that weight's value.
pub proof fn lemma_weight_value_roundtrip(w: SymbolWeight, v: u32)
    ensures
        weight_of(weight_value(w)) == Some(w),
        weight_of(v) matches Some(x) ==> weight_value(x) == v,
{
}

/// The text of each value is its number written in decimal.
pub proof fn lemma_weight_text_is_decimal(w: SymbolWeight)
    ensures
        weight_text(w) == decimal(weight_value(w) as nat),
{
    reveal_with_fuel(decimal, 4);
}

} // verus!
