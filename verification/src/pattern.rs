//! The regular expressions of the implicit classification.
//!
//! Matching is done by the `regex` crate. What it answers for a pattern and a
//! text is a function of the two alone; the contracts below give those answers
//! names and state nothing else of them.

use vstd::prelude::*;

verus! {

/// An all-capitals line: at least one character, none of them a lower-case
/// ASCII letter.
pub const PAT_HEAD: &'static str = r"^[^a-z]+$";

/// A scene heading: `INT.` or `EXT.`, a location and a time of day, the two
/// separated by a dash, neither with a lower-case ASCII letter.
pub const PAT_SCENE: &'static str = r"(INT\.|EXT\.) [^a-z]+ - [^a-z]+";

/// A named speech: a name with an optional `(O.S.)` or `(V.O.)`, a colon, and
/// runs of speech, each of which a capitalised parenthetical may precede.
pub const PAT_SPEECH: &'static str =
    r"(\w+(?: \((?:O\.S\.|V\.O\.)\))?):\s+(?:(\([A-Z][^\)]*\) )?([^\(]+))+";

/// One run of a named speech: an optional parenthetical, then the words.
pub const PAT_EXTRACT: &'static str = r"\s*(\([^\)]+\))?((?:\s+[^\(]+)+)";

/// Whether `pattern` is one of the four patterns of this library.
pub open spec fn is_known(pattern: Seq<char>) -> bool {
    pattern == PAT_HEAD@ || pattern == PAT_SCENE@ || pattern == PAT_SPEECH@ || pattern
        == PAT_EXTRACT@
}

/// Whether `pattern` matches anywhere in `text`; `None` where `pattern` is no
/// valid regular expression.
pub uninterp spec fn regex_is_match(pattern: Seq<char>, text: Seq<char>) -> Option<bool>;

/// The successive matches of `pattern` in `text`, each with the text of every
/// capture group from group 0 on, `None` for a group that took no part;
/// `None` as a whole where `pattern` is no valid regular expression.
pub uninterp spec fn regex_captures(pattern: Seq<char>, text: Seq<char>) -> Option<
    Seq<Seq<Option<Seq<char>>>>,
>;

/// `Regex::new` and `Regex::is_match`: compiles `pattern` and tells whether it
/// matches anywhere in `text`. A pattern that does not compile gives `None`.
/// The contract names the answer and states nothing else of it; it is asked
/// for the patterns of this library only.
#[verifier::external_body]
pub(crate) fn is_match(pattern: &str, text: &str) -> (r: Option<bool>)
    requires
        is_known(pattern@),
    ensures
        r == regex_is_match(pattern@, text@),
{
    match regex::Regex::new(pattern) {
        Ok(re) => Some(re.is_match(text)),
        Err(_) => None,
    }
}

/// `Regex::new`, `Regex::captures_iter`, `Captures::iter` and `Match::as_str`:
/// compiles `pattern` and lists its successive non-overlapping matches in
/// `text`, each as the texts of its capture groups in the order of their
/// opening parentheses, group 0 first. A pattern that does not compile gives
/// `None`. The contract names the answer and states nothing else of it; it
/// is asked for the patterns of this library only.
#[verifier::external_body]
pub(crate) fn captures(pattern: &str, text: &str) -> (r: Option<Vec<Vec<Option<String>>>>)
    requires
        is_known(pattern@),
    ensures
        r.deep_view() == regex_captures(pattern@, text@),
{
    match regex::Regex::new(pattern) {
        Ok(re) => Some(
            re.captures_iter(text).map(
                |found| found.iter().map(|group| group.map(|m| m.as_str().to_string())).collect(),
            ).collect(),
        ),
        Err(_) => None,
    }
}

} // verus!
