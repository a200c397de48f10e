//! The calls into the policy language's parser, and into the standard
//! library's text escaping. Nothing here is proved: each contract states what
//! the called function is relied on to do.

use std::str::FromStr;
use vstd::prelude::*;
use cedar_policy_core::ast::{Id, Name};
use crate::names::QualifiedName;

verus! {

/// What the policy language's name parser makes of `text`: the namespace
/// path and the base identifier of the name, or nothing where `text` is not
/// a name.
pub uninterp spec fn parsed_name(text: Seq<char>) -> Option<(Seq<Seq<char>>, Seq<char>)>;

/// What the policy language's identifier parser makes of `text`: the
/// identifier, or nothing where `text` is not one.
pub uninterp spec fn parsed_ident(text: Seq<char>) -> Option<Seq<char>>;

/// `text` with its characters escaped as `str::escape_debug` escapes them.
pub uninterp spec fn escaped_text(text: Seq<char>) -> Seq<char>;

/// Calls `Name::from_str` of `cedar_policy_core`. The contract claims that
/// the outcome depends on the text alone: the parser accepts exactly the
/// texts for which `parsed_name` is defined, and the name it returns has the
/// components that `parsed_name` gives. Of the messages returned on failure
/// nothing is claimed.
#[verifier::external_body]
pub(crate) fn parse_name(text: &str) -> (r: Result<QualifiedName, Vec<String>>)
    ensures
        r is Ok <==> parsed_name(text@) is Some,
        r matches Ok(n) ==> (n@.path, n@.base) == parsed_name(text@)->Some_0,
{
    match Name::from_str(text) {
        Ok(n) => Ok(
            QualifiedName {
                path: n.namespace_components().map(|id| id.to_string()).collect(),
                base: n.basename().to_string(),
            },
        ),
        Err(e) => Err(e.errors_as_strings()),
    }
}

/// Calls `Id::from_str` of `cedar_policy_core`. The contract claims that the
/// outcome depends on the text alone: the parser accepts exactly the texts
/// for which `parsed_ident` is defined, and returns the identifier that
/// `parsed_ident` gives. Of the messages returned on failure nothing is
/// claimed.
#[verifier::external_body]
pub(crate) fn parse_ident(text: &str) -> (r: Result<String, Vec<String>>)
    ensures
        r is Ok <==> parsed_ident(text@) is Some,
        r matches Ok(id) ==> id@ == parsed_ident(text@)->Some_0,
{
    match Id::from_str(text) {
        Ok(id) => Ok(id.to_string()),
        Err(e) => Err(e.errors_as_strings()),
    }
}

/// Calls `str::escape_debug` of the standard library and collects what it
/// yields. The contract claims only that the result depends on the text
/// alone, and calls it `escaped_text`.
#[verifier::external_body]
pub(crate) fn escape_text(text: &str) -> (r: String)
    ensures
        r@ == escaped_text(text@),
{
    text.escape_debug().to_string()
}

} // verus!
