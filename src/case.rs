//! Identifier case conversion, through `convert_case`.

use vstd::prelude::*;
use convert_case::{Case, Casing};

verus! {

/// What `convert_case` gives for `s` in kebab case (`get-user-profile`).
pub uninterp spec fn kebab_of(s: Seq<char>) -> Seq<char>;

/// What `convert_case` gives for `s` in upper snake case (`GET_USER`).
pub uninterp spec fn upper_snake_of(s: Seq<char>) -> Seq<char>;

/// What `convert_case` gives for `s` in Pascal case (`AppState`).
pub uninterp spec fn pascal_of(s: Seq<char>) -> Seq<char>;

/// What `convert_case` gives for `s` in snake case (`app_state`).
pub uninterp spec fn snake_of(s: Seq<char>) -> Seq<char>;

/// Relies on `convert_case::Casing::to_case` with `Case::Kebab`: the result
/// depends on the characters of `s` alone.
#[verifier::external_body]
pub(crate) fn to_kebab(s: &str) -> (r: String)
    ensures
        r@ == kebab_of(s@),
{
    s.to_case(Case::Kebab)
}

/// Relies on `convert_case::Casing::to_case` with `Case::UpperSnake`: the
/// result depends on the characters of `s` alone.
#[verifier::external_body]
pub(crate) fn to_upper_snake(s: &str) -> (r: String)
    ensures
        r@ == upper_snake_of(s@),
{
    s.to_case(Case::UpperSnake)
}

/// Relies on `convert_case::Casing::to_case` with `Case::Pascal`: the result
/// depends on the characters of `s` alone.
#[verifier::external_body]
pub(crate) fn to_pascal(s: &str) -> (r: String)
    ensures
        r@ == pascal_of(s@),
{
    s.to_case(Case::Pascal)
}

/// Relies on `convert_case::Casing::to_case` with `Case::Snake`: the result
/// depends on the characters of `s` alone.
#[verifier::external_body]
pub(crate) fn to_snake(s: &str) -> (r: String)
    ensures
        r@ == snake_of(s@),
{
    s.to_case(Case::Snake)
}

} // verus!
