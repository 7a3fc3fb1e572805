//! The case conversion the canonical model name is derived with. The
//! conversion itself comes from an outside crate; its result depends on
//! the characters of the input alone, so it is given a name that the
//! callers' contracts speak of.

use vstd::prelude::*;
use convert_case::{Case, Casing};

verus! {

/// The snake-cased form of a character sequence, as the outside case
/// conversion computes it.
pub uninterp spec fn snake_case_of(s: Seq<char>) -> Seq<char>;

/// Relies on convert_case's `Casing::to_case` with the snake-case
/// target: splits the input on its word boundaries, lowercases the
/// words and joins them with underscores; the result is a function of
/// the input characters alone.
#[verifier::external_body]
pub(crate) fn to_snake_case(s: &str) -> (r: String)
    ensures
        r@ == snake_case_of(s@),
{
    s.to_case(Case::Snake)
}

} // verus!
