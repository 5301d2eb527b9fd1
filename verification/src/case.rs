//! Case conversion of names, as the `heck` crate does it.
use vstd::prelude::*;

verus! {

/// What `heck` makes of a string in UpperCamelCase (PascalCase).
pub uninterp spec fn upper_camel_of(s: Seq<char>) -> Seq<char>;

/// What `heck` makes of a string in snake_case.
pub uninterp spec fn snake_of(s: Seq<char>) -> Seq<char>;

/// `heck::ToUpperCamelCase::to_upper_camel_case`: splits the text into
/// words and writes each capitalised, with no separator. The claim is
/// only that the result is a function of the text.
#[verifier::external_body]
pub(crate) fn upper_camel_case(s: &str) -> (r: String)
    ensures
        r@ == upper_camel_of(s@),
{
    heck::ToUpperCamelCase::to_upper_camel_case(s)
}

/// `heck::ToSnakeCase::to_snake_case`: splits the text into words and
/// writes them in lower case joined by `_`. The claim is only that the
/// result is a function of the text.
#[verifier::external_body]
pub(crate) fn snake_case(s: &str) -> (r: String)
    ensures
        r@ == snake_of(s@),
{
    heck::ToSnakeCase::to_snake_case(s)
}

} // verus!
