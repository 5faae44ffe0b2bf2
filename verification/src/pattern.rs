//! Regular-expression matching, delegated to the `regex` crate.
//!
//! Nothing in this module is proved: each declaration states what the crate's
//! matcher is taken to do, and the verified code is checked against those
//! statements.

use vstd::prelude::*;

verus! {

/// A compiled regular expression of `regex`.
#[verifier::external_type_specification]
#[verifier::external_body]
pub struct ExRegex(regex::Regex);

/// The error that `regex` reports for an expression it cannot compile.
#[verifier::external_type_specification]
#[verifier::external_body]
pub struct ExRegexError(regex::Error);

/// Grammar of a table row: name, default value, attribute column and an
/// optional description, separated by colons.
pub const CVAR_PATTERN: &'static str = r#"^(.*?)\s*: (.*?)\s*: (.*?)\s*:(?: (.*)|)$"#;

/// Grammar of the summary line that reports how many variables were listed.
pub const COUNT_PATTERN: &'static str = r#"^(\d+) total convars/concommands$"#;

/// Grammar of one quoted flag inside the attribute column.
pub const ATTRIBUTE_PATTERN: &'static str = r#", ?"(.*?)""#;

/// Whether `regex` compiles `pattern` with its default settings.
pub uninterp spec fn regex_accepts(pattern: Seq<char>) -> bool;

/// The expression that a compiled value was built from, which is what
/// `regex::Regex::as_str` returns for it.
pub uninterp spec fn regex_source(re: regex::Regex) -> Seq<char>;

/// The capture groups of the leftmost match of `pattern` in `haystack`, group
/// zero first, with `None` for a group that took no part in the match; `None`
/// overall where `pattern` matches nowhere. Meaningful for accepted patterns.
pub uninterp spec fn regex_captures(pattern: Seq<char>, haystack: Seq<char>) -> Option<
    Seq<Option<Seq<char>>>,
>;

/// The texts of the successive non-overlapping matches of `pattern` in
/// `haystack`, from left to right. Meaningful for accepted patterns.
pub uninterp spec fn regex_matches(pattern: Seq<char>, haystack: Seq<char>) -> Seq<Seq<char>>;

/// The texts held by a vector of strings.
pub open spec fn texts(v: Seq<String>) -> Seq<Seq<char>> {
    Seq::new(v.len(), |i: int| v[i]@)
}

/// The capture groups held by a vector of optional strings.
pub open spec fn group_views(v: Seq<Option<String>>) -> Seq<Option<Seq<char>>> {
    Seq::new(
        v.len(),
        |i: int|
            match v[i] {
                Some(s) => Some(s@),
                None => None,
            },
    )
}

/// The outcome of a capture search, as plain sequences.
pub open spec fn found_groups(found: Option<Vec<Option<String>>>) -> Option<
    Seq<Option<Seq<char>>>,
> {
    match found {
        Some(v) => Some(group_views(v@)),
        None => None,
    }
}

/// Calls `regex::RegexBuilder::build` on `pattern` with the builder's default
/// settings. Trusted: it succeeds exactly where [`regex_accepts`] holds, and
/// the value it returns is one built from `pattern`.
#[verifier::external_body]
pub(crate) fn compile_pattern(pattern: &str) -> (r: Result<regex::Regex, regex::Error>)
    ensures
        r is Ok <==> regex_accepts(pattern@),
        r matches Ok(re) ==> regex_source(re) == pattern@,
{
    regex::RegexBuilder::new(pattern).build()
}

/// Calls `regex::Regex::captures` on `haystack` and copies each group's text
/// out. Trusted: the groups are those that [`regex_captures`] names for the
/// expression that `re` was built from.
#[verifier::external_body]
pub(crate) fn capture_groups(re: &regex::Regex, haystack: &str) -> (found: Option<
    Vec<Option<String>>,
>)
    ensures
        found_groups(found) == regex_captures(regex_source(*re), haystack@),
{
    re.captures(haystack).map(|c| c.iter().map(|g| g.map(|m| m.as_str().to_string())).collect())
}

/// Calls `regex::Regex::find_iter` on `haystack` and copies each match's text
/// out. Trusted: the matches are those that [`regex_matches`] names for the
/// expression that `re` was built from.
#[verifier::external_body]
pub(crate) fn find_matches(re: &regex::Regex, haystack: &str) -> (found: Vec<String>)
    ensures
        texts(found@) == regex_matches(regex_source(*re), haystack@),
{
    re.find_iter(haystack).map(|m| m.as_str().to_string()).collect()
}

} // verus!
