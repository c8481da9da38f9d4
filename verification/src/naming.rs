//! Column naming: an explicit name is used as written, otherwise the field's
//! identifier is turned into the store's title-case convention.

use convert_case::{Case, Casing};
use vstd::prelude::*;
use vstd::string::*;

verus! {

/// The title-case form that `convert_case` gives a text: the words that it
/// finds in the text, each with its first letter in upper case and the rest
/// in lower case, joined by single spaces.
pub uninterp spec fn title_case_of(text: Seq<char>) -> Seq<char>;

/// Calls `convert_case::Casing::to_case` with `Case::Title`. The conversion
/// reads nothing but its argument, so its result is named by `title_case_of`;
/// nothing more is claimed of it.
#[verifier::external_body]
fn to_title_case(text: &str) -> (out: String)
    ensures
        out@ == title_case_of(text@),
{
    text.to_case(Case::Title)
}

/// Whether an identifier carries the raw-identifier escape `r#`.
pub open spec fn has_raw_prefix(identifier: Seq<char>) -> bool {
    identifier.len() >= 2 && identifier[0] == 'r' && identifier[1] == '#'
}

/// An identifier without its raw-identifier escape.
pub open spec fn unraw(identifier: Seq<char>) -> Seq<char> {
    if has_raw_prefix(identifier) {
        identifier.skip(2)
    } else {
        identifier
    }
}

/// The column name of a field: the explicit name where there is one, else the
/// title-case form of the unescaped identifier.
pub open spec fn resolved_name(identifier: Seq<char>, explicit: Option<Seq<char>>) -> Seq<char> {
    match explicit {
        Some(name) => name,
        None => title_case_of(unraw(identifier)),
    }
}

/// The view of an optional string.
pub open spec fn optional_text(text: Option<String>) -> Option<Seq<char>> {
    match text {
        Some(s) => Some(s@),
        None => None,
    }
}

/// Removes a leading `r#` from an identifier, if there is one.
pub fn strip_raw_prefix(identifier: &str) -> (out: String)
    ensures
        out@ == unraw(identifier@),
{
    let n: usize = identifier.unicode_len();
    if n >= 2 && identifier.get_char(0) == 'r' && identifier.get_char(1) == '#' {
        let rest = identifier.substring_char(2, n);
        assert(rest@ =~= identifier@.skip(2));
        rest.to_owned()
    } else {
        identifier.to_owned()
    }
}

/// The conventional column name of an identifier: its title-case form, taken
/// after the raw-identifier escape is removed.
pub fn conventional_name(identifier: &str) -> (out: String)
    ensures
        out@ == title_case_of(unraw(identifier@)),
{
    let plain = strip_raw_prefix(identifier);
    to_title_case(plain.as_str())
}

/// Resolves the column name of a field from its identifier and its optional
/// explicit name. An explicit name is returned verbatim.
pub fn resolve_column_name(identifier: &str, explicit: &Option<String>) -> (out: String)
    ensures
        out@ == resolved_name(identifier@, optional_text(*explicit)),
        explicit.is_some() ==> out@ == explicit.unwrap()@,
{
    match explicit {
        Some(name) => name.clone(),
        None => conventional_name(identifier),
    }
}

/// Resolution is a function of the identifier and the explicit name alone:
/// two resolutions of the same inputs give the same column name.
pub proof fn resolution_is_deterministic(
    identifier: Seq<char>,
    explicit: Option<Seq<char>>,
    first: Seq<char>,
    second: Seq<char>,
)
    requires
        first == resolved_name(identifier, explicit),
        second == resolved_name(identifier, explicit),
    ensures
        first == second,
{
}

/// An explicit name wins over the identifier, whatever the identifier is.
pub proof fn explicit_name_takes_precedence(
    identifier: Seq<char>,
    other_identifier: Seq<char>,
    name: Seq<char>,
)
    ensures
        resolved_name(identifier, Some(name)) == name,
        resolved_name(identifier, Some(name)) == resolved_name(other_identifier, Some(name)),
{
}

} // verus!
