//! The wording of decoding failures, which is serde's: a failure reads the
//! same here as where a serde data format reports it.
//!
//! The functions of this file are not verified. Each makes one call into
//! serde, on serde's own error type, and hands back the text of the error
//! that came out.

use vstd::prelude::*;
use crate::serdes::wire::Unexpected;
use crate::serdes::wire::UnexpectedView;

verus! {

/// The text of the error that serde makes for a value of the wrong type: what
/// was found, then what was expected.
pub uninterp spec fn invalid_type_text(found: UnexpectedView, expected: Seq<char>) -> Seq<char>;

/// The text of the error that serde makes for a sequence that ends after
/// `len` elements: the number, then what was expected.
pub uninterp spec fn invalid_length_text(len: usize, expected: Seq<char>) -> Seq<char>;

/// The text of the error that serde makes for a key that names no field: the
/// key, then the names that it could have been.
pub uninterp spec fn unknown_field_text(field: Seq<char>, expected: Seq<Seq<char>>) -> Seq<char>;

/// The texts of a list of names.
pub open spec fn names_view(names: Seq<&'static str>) -> Seq<Seq<char>> {
    names.map_values(|name: &'static str| name@)
}

/// Calls `serde::de::Error::invalid_type` on `serde::de::value::Error`, with
/// `found` as the `serde::de::Unexpected` of the same shape and `expected` as
/// the expectation, and gives the error's text. The text depends on the two
/// arguments alone; the contract gives it a name and says no more of it.
#[verifier::external_body]
pub(crate) fn invalid_type(found: &Unexpected, expected: &str) -> (text: String)
    ensures
        text@ == invalid_type_text(found@, expected@),
{
    let found = match found {
        Unexpected::Str(text) => serde::de::Unexpected::Str(text),
        Unexpected::Unsigned(number) => serde::de::Unexpected::Unsigned(*number),
        Unexpected::Keyed => serde::de::Unexpected::Map,
        Unexpected::Sequence => serde::de::Unexpected::Seq,
    };
    <serde::de::value::Error as serde::de::Error>::invalid_type(found, &expected).to_string()
}

/// Calls `serde::de::Error::invalid_length` on `serde::de::value::Error` and
/// gives the error's text. The text depends on the two arguments alone; the
/// contract gives it a name and says no more of it.
#[verifier::external_body]
pub(crate) fn invalid_length(len: usize, expected: &str) -> (text: String)
    ensures
        text@ == invalid_length_text(len, expected@),
{
    <serde::de::value::Error as serde::de::Error>::invalid_length(len, &expected).to_string()
}

/// Calls `serde::de::Error::unknown_field` on `serde::de::value::Error` and
/// gives the error's text. The text depends on the two arguments alone; the
/// contract gives it a name and says no more of it.
#[verifier::external_body]
pub(crate) fn unknown_field(field: &str, expected: &'static [&'static str]) -> (text: String)
    ensures
        text@ == unknown_field_text(field@, names_view(expected@)),
{
    <serde::de::value::Error as serde::de::Error>::unknown_field(field, expected).to_string()
}

/// Calls `serde::de::Error::missing_field` on `serde::de::value::Error` and
/// gives the error's text, which serde writes as the words `missing field`
/// and the field's name between backticks.
#[verifier::external_body]
pub(crate) fn missing_field(field: &'static str) -> (text: String)
    ensures
        text@ == "missing field `"@ + field@ + "`"@,
{
    <serde::de::value::Error as serde::de::Error>::missing_field(field).to_string()
}

/// Calls `serde::de::Error::duplicate_field` on `serde::de::value::Error` and
/// gives the error's text, which serde writes as the words `duplicate field`
/// and the field's name between backticks.
#[verifier::external_body]
pub(crate) fn duplicate_field(field: &'static str) -> (text: String)
    ensures
        text@ == "duplicate field `"@ + field@ + "`"@,
{
    <serde::de::value::Error as serde::de::Error>::duplicate_field(field).to_string()
}

} // verus!
