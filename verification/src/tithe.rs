//! What each kind of transaction does to the tithe that is owed.

use crate::text::same_text;
use vstd::prelude::*;

verus! {

/// The part of a transaction's amount that is added to the tithe owed, or
/// taken from it.
#[derive(Clone, Copy, Debug, PartialEq, Eq, Structural)]
pub enum TitheEffect {
    /// A tenth of the amount is owed.
    OwedTenth,
    /// A fifth of the amount is owed.
    OwedFifth,
    /// The whole amount is paid off.
    PaidWhole,
    /// A tenth of the amount is paid off.
    PaidTenth,
    /// The balance stays as it is.
    Nothing,
}

/// The effect of a transaction of the type `type_str`, with the flag for a
/// fifth as it is stored: set where the stored number is 1.
pub open spec fn effect_of(type_str: Seq<char>, is_chomesh: Option<i32>) -> TitheEffect {
    if type_str == "income"@ {
        if is_chomesh == Some(1i32) {
            TitheEffect::OwedFifth
        } else {
            TitheEffect::OwedTenth
        }
    } else if type_str == "donation"@ {
        TitheEffect::PaidWhole
    } else if type_str == "recognized-expense"@ {
        TitheEffect::PaidTenth
    } else {
        TitheEffect::Nothing
    }
}

/// The effect of one transaction on the tithe owed.
pub fn tithe_effect(type_str: &str, is_chomesh: Option<i32>) -> (r: TitheEffect)
    ensures
        r == effect_of(type_str@, is_chomesh),
{
    if same_text(type_str, "income") {
        match is_chomesh {
            Some(1) => TitheEffect::OwedFifth,
            _ => TitheEffect::OwedTenth,
        }
    } else if same_text(type_str, "donation") {
        TitheEffect::PaidWhole
    } else if same_text(type_str, "recognized-expense") {
        TitheEffect::PaidTenth
    } else {
        TitheEffect::Nothing
    }
}

} // verus!
