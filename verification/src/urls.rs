//! The one fact the library takes from the `url` crate: whether a string is
//! a well-formed absolute URL. Joining itself is the library's own
//! character-level operation (see `text`); only the validity of the joined
//! result is the URL parser's verdict.

use vstd::prelude::*;

verus! {

/// Whether `url::Url::parse` accepts the string: a function of the string
/// alone, left uninterpreted because URL well-formedness takes a
/// specification of its own to state.
pub uninterp spec fn url_ok(s: Seq<char>) -> bool;

/// Relies on `url::Url::parse`: whether a string parses as a URL depends on
/// the characters of the string alone.
#[verifier::external_body]
pub(crate) fn url_parses(s: &str) -> (r: bool)
    ensures
        r == url_ok(s@),
{
    url::Url::parse(s).is_ok()
}

} // verus!
