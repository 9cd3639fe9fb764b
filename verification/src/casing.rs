//! Case conversion of identifiers, done by the `heck` crate.
use heck::{ToLowerCamelCase, ToUpperCamelCase};
use vstd::prelude::*;

verus! {

/// What `heck`'s `to_upper_camel_case` makes of a text.
pub uninterp spec fn upper_camel_case(s: Seq<char>) -> Seq<char>;

/// What `heck`'s `to_lower_camel_case` makes of a text.
pub uninterp spec fn lower_camel_case(s: Seq<char>) -> Seq<char>;

/// Calls `heck::ToUpperCamelCase::to_upper_camel_case` on `s`. Trusted: the
/// result is `upper_camel_case` of the text, a function of the text alone.
#[verifier::external_body]
pub(crate) fn to_upper_camel_case(s: &str) -> (r: String)
    ensures
        r@ == upper_camel_case(s@),
{
    s.to_upper_camel_case()
}

/// Calls `heck::ToLowerCamelCase::to_lower_camel_case` on `s`. Trusted: the
/// result is `lower_camel_case` of the text, a function of the text alone.
#[verifier::external_body]
pub(crate) fn to_lower_camel_case(s: &str) -> (r: String)
    ensures
        r@ == lower_camel_case(s@),
{
    s.to_lower_camel_case()
}

} // verus!
