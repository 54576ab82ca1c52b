//! Opaque pattern capabilities: regular-expression matching and JSON-path
//! selection. What these outside engines compute is named, not restated: the
//! names below stand for the exact result of each call as a function of its
//! textual arguments, and the rest of the engine is verified against them.
use vstd::prelude::*;

verus! {

/// Whether a regular-expression pattern compiles.
pub uninterp spec fn regex_ok(pat: Seq<char>) -> bool;

/// The non-overlapping match texts of a compiled pattern over a text, in
/// order of occurrence.
pub uninterp spec fn regex_findings(pat: Seq<char>, text: Seq<char>) -> Seq<Seq<char>>;

/// Per match of the pattern over the text: the first capture group when the
/// match has one, the whole match text otherwise; in order of occurrence.
pub uninterp spec fn regex_captured(pat: Seq<char>, text: Seq<char>) -> Seq<Seq<char>>;

/// The string values a JSON-path query selects from a JSON body; empty when
/// the body does not parse, the path is invalid, or a selected value is not a
/// string.
pub uninterp spec fn json_selected(path: Seq<char>, body: Seq<char>) -> Seq<Seq<char>>;

/// Relies on regex::Regex::new: whether a pattern compiles depends on its
/// text alone.
#[verifier::external_body]
pub(crate) fn regex_valid(pat: &str) -> (r: bool)
    ensures
        r == regex_ok(pat@),
{
    regex::Regex::new(pat).is_ok()
}

/// Relies on regex::Regex::new and regex::Regex::find_iter: the
/// non-overlapping matches of the pattern over the text, earliest first, a
/// function of the two texts alone.
#[verifier::external_body]
pub(crate) fn regex_find_all(pat: &str, text: &str) -> (r: Vec<String>)
    ensures
        regex_ok(pat@) ==> r.deep_view() == regex_findings(pat@, text@),
        !regex_ok(pat@) ==> r@.len() == 0,
{
    match regex::Regex::new(pat) {
        Ok(re) => re.find_iter(text).map(|m| m.as_str().to_string()).collect(),
        Err(_) => Vec::new(),
    }
}

/// Relies on regex::Regex::new and regex::Regex::captures_iter: per match,
/// the first capture group where the pattern has one, else the whole match; a
/// function of the two texts alone.
#[verifier::external_body]
pub(crate) fn regex_capture_all(pat: &str, text: &str) -> (r: Vec<String>)
    ensures
        regex_ok(pat@) ==> r.deep_view() == regex_captured(pat@, text@),
        !regex_ok(pat@) ==> r@.len() == 0,
{
    match regex::Regex::new(pat) {
        Ok(re) => re
            .captures_iter(text)
            .map(|c| match c.get(1) {
                Some(g) => g.as_str().to_string(),
                None => c.get(0).map(|w| w.as_str()).unwrap_or("").to_string(),
            })
            .collect(),
        Err(_) => Vec::new(),
    }
}

/// Relies on jsonpath_lib::select_as::<String>: the string values the path
/// selects from the body, a function of the two texts alone; empty on any
/// parse or selection failure.
#[verifier::external_body]
pub(crate) fn json_select(path: &str, body: &str) -> (r: Vec<String>)
    ensures
        r.deep_view() == json_selected(path@, body@),
{
    jsonpath_lib::select_as::<String>(body, path).unwrap_or_default()
}

} // verus!
