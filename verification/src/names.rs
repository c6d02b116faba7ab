//! The naming-style converter: exported item and field names are rendered
//! in mixed case by an outside case-conversion routine.

use vstd::prelude::*;

verus! {

/// The mixed-case form of an identifier's characters.
pub uninterp spec fn mixed_case_of(s: Seq<char>) -> Seq<char>;

/// Relies on heck's `MixedCase::to_mixed_case` for `str`: the conversion
/// depends on the characters of its input alone.
#[verifier::external_body]
pub fn to_mixed_case(s: &str) -> (r: String)
    ensures
        r@ == mixed_case_of(s@),
{
    heck::MixedCase::to_mixed_case(s)
}

/// The lowercase form of an identifier's characters.
pub uninterp spec fn lower_of(s: Seq<char>) -> Seq<char>;

/// Relies on `str::to_lowercase`: the conversion depends on the characters
/// of its input alone.
#[verifier::external_body]
pub fn to_lowercase_str(s: &str) -> (r: String)
    ensures
        r@ == lower_of(s@),
{
    s.to_lowercase()
}

} // verus!
