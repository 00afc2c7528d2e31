//! Decimal numbers, which `rust_decimal` reads.
use rust_decimal::Decimal;
use vstd::prelude::*;

verus! {

/// `rust_decimal::Decimal`, carried through as it is.
#[verifier::external_type_specification]
#[verifier::external_body]
pub struct ExDecimal(Decimal);

/// What `rust_decimal::Decimal::from_str_exact` makes of a text: the decimal, or nothing where it
/// reports an error.
pub uninterp spec fn exact_decimal(text: Seq<char>) -> Option<Decimal>;

/// Calls `rust_decimal::Decimal::from_str_exact`, whose result depends on the text alone. Which
/// of its errors came back is dropped.
#[verifier::external_body]
pub(crate) fn decimal_from_str_exact(text: &str) -> (decimal: Option<Decimal>)
    ensures
        decimal == exact_decimal(text@),
{
    Decimal::from_str_exact(text).ok()
}

} // verus!
