//! JSON text, read and written by `serde_json`.
//!
//! Each call into `serde_json` stands in a function of its own, whose
//! contract is believed and not proved: it gives the call's result a name,
//! under which the rest of the library speaks of it.

use vstd::prelude::*;
use vstd::string::*;

verus! {

/// The error of `serde_json`, carried through unopened.
#[verifier::external_type_specification]
#[verifier::external_body]
pub struct ExJsonError(serde_json::Error);

/// The string that `serde_json::from_str::<String>` reads from `text`, or
/// `None` where it refuses the text.
pub uninterp spec fn json_string_of(text: Seq<char>) -> Option<Seq<char>>;

/// The strings that `serde_json::from_str::<Vec<String>>` reads from `text`,
/// or `None` where it refuses the text.
pub uninterp spec fn json_names_of(text: Seq<char>) -> Option<Seq<Seq<char>>>;

/// The pairs of key and value that `serde_json::from_str` reads from `text`
/// into a `BTreeMap<String, String>`, in the order of the map, or `None`
/// where it refuses the text.
pub uninterp spec fn json_attrs_of(text: Seq<char>) -> Option<Seq<(Seq<char>, Seq<char>)>>;

/// The text that `serde_json::to_string` writes for a list of strings, or
/// `None` where it fails.
pub uninterp spec fn json_of_names(names: Seq<Seq<char>>) -> Option<Seq<char>>;

/// The text that `serde_json::to_string` writes for a list of pairs of
/// strings, or `None` where it fails.
pub uninterp spec fn json_of_pairs(pairs: Seq<(Seq<char>, Seq<char>)>) -> Option<Seq<char>>;

/// Calls `serde_json::from_str::<String>`. The contract names what it returns
/// and claims nothing else of it.
#[verifier::external_body]
pub(crate) fn read_string(text: &str) -> (r: Result<String, serde_json::Error>)
    ensures
        match r {
            Ok(s) => json_string_of(text@) == Some(s@),
            Err(_) => json_string_of(text@) is None,
        },
{
    serde_json::from_str::<String>(text)
}

/// Calls `serde_json::from_str::<Vec<String>>`. The contract names what it
/// returns and claims nothing else of it.
#[verifier::external_body]
pub(crate) fn read_names(text: &str) -> (r: Result<Vec<String>, serde_json::Error>)
    ensures
        match r {
            Ok(v) => json_names_of(text@) == Some(v.deep_view()),
            Err(_) => json_names_of(text@) is None,
        },
{
    serde_json::from_str::<Vec<String>>(text)
}

/// Calls `serde_json::from_str::<BTreeMap<String, String>>` and hands the
/// map's entries out in the map's own order, which is that of the keys. The
/// contract names what it returns and claims nothing else of it.
#[verifier::external_body]
pub(crate) fn read_attrs(text: &str) -> (r: Result<Vec<(String, String)>, serde_json::Error>)
    ensures
        match r {
            Ok(v) => json_attrs_of(text@) == Some(v.deep_view()),
            Err(_) => json_attrs_of(text@) is None,
        },
{
    let map = serde_json::from_str::<std::collections::BTreeMap<String, String>>(text)?;
    Ok(map.into_iter().collect())
}

/// Calls `serde_json::to_string` on a list of strings. The contract names
/// what it returns and claims nothing else of it.
#[verifier::external_body]
pub(crate) fn write_names(names: &Vec<String>) -> (r: Result<String, serde_json::Error>)
    ensures
        match r {
            Ok(s) => json_of_names(names.deep_view()) == Some(s@),
            Err(_) => json_of_names(names.deep_view()) is None,
        },
{
    serde_json::to_string(names)
}

/// Calls `serde_json::to_string` on a list of pairs of strings. The contract
/// names what it returns and claims nothing else of it.
#[verifier::external_body]
pub(crate) fn write_pairs(pairs: &Vec<(String, String)>) -> (r: Result<String, serde_json::Error>)
    ensures
        match r {
            Ok(s) => json_of_pairs(pairs.deep_view()) == Some(s@),
            Err(_) => json_of_pairs(pairs.deep_view()) is None,
        },
{
    serde_json::to_string(pairs)
}

/// Calls `to_string` on an error of `serde_json`, which renders it through
/// its `Display`. Nothing is claimed of the text.
#[verifier::external_body]
fn error_text(e: &serde_json::Error) -> (text: String) {
    e.to_string()
}

/// The message for a text that could not be read, `why` being the reader's
/// own words.
pub open spec fn unreadable_message(why: Seq<char>) -> Seq<char> {
    "Unable to parse json ("@ + why + ")"@
}

/// The message for a value that could not be written, `why` being the
/// writer's own words.
pub open spec fn unwritable_message(why: Seq<char>) -> Seq<char> {
    "Unable to encode result ("@ + why + ")"@
}

/// The message for a text that `serde_json` refused with `e`.
pub(crate) fn unreadable(e: &serde_json::Error) -> (text: String)
    ensures
        exists|why: Seq<char>| text@ == unreadable_message(why),
{
    let why = error_text(e);
    let mut text = String::from_str("Unable to parse json (");
    text.append(why.as_str());
    text.append(")");
    assert(text@ == unreadable_message(why@));
    text
}

/// The message for a value that `serde_json` failed to write with `e`.
pub(crate) fn unwritable(e: &serde_json::Error) -> (text: String)
    ensures
        exists|why: Seq<char>| text@ == unwritable_message(why),
{
    let why = error_text(e);
    let mut text = String::from_str("Unable to encode result (");
    text.append(why.as_str());
    text.append(")");
    assert(text@ == unwritable_message(why@));
    text
}

} // verus!
