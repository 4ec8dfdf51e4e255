//! Regular expressions, matched by the `regex` crate.
use vstd::prelude::*;

verus! {

#[verifier::external_type_specification]
#[verifier::external_body]
pub struct ExRegex(regex::Regex);

#[verifier::external_type_specification]
#[verifier::external_body]
pub struct ExRegexError(regex::Error);

/// Whether `regex::Regex::new` accepts the pattern.
pub uninterp spec fn regex_compiles(pattern: Seq<char>) -> bool;

/// What `regex::Regex::captures` finds for the pattern in the haystack: for
/// the leftmost-first match, the text of each group in order (group 0 is the
/// whole match; a group that took no part is `None`).
pub uninterp spec fn regex_captures(pattern: Seq<char>, haystack: Seq<char>) -> Option<
    Seq<Option<Seq<char>>>,
>;

/// What `regex::Regex::captures_iter` yields for the pattern in the
/// haystack: the groups of each successive non-overlapping match.
pub uninterp spec fn regex_captures_all(pattern: Seq<char>, haystack: Seq<char>) -> Seq<
    Seq<Option<Seq<char>>>,
>;

/// A compiled regular expression together with its source text.
pub(crate) struct Pattern {
    source: String,
    compiled: regex::Regex,
}

impl Pattern {
    /// The source text the pattern was compiled from.
    pub closed spec fn source(&self) -> Seq<char> {
        self.source@
    }
}

/// Compiles `source` with `regex::Regex::new`.
///
/// Trusted: the compilation succeeds exactly when the crate accepts the
/// pattern (`regex_compiles`), and the pattern keeps `source` as its text.
#[verifier::external_body]
pub(crate) fn compile(source: &str) -> (r: Result<Pattern, regex::Error>)
    ensures
        (r is Ok) == regex_compiles(source@),
        r matches Ok(p) ==> p.source() == source@,
{
    match regex::Regex::new(source) {
        Ok(compiled) => Ok(Pattern { source: source.to_string(), compiled }),
        Err(e) => Err(e),
    }
}

/// The groups of the first match of `p` in `haystack`, from
/// `regex::Regex::captures`.
///
/// Trusted: the result is the crate's answer for the pattern's source and the
/// haystack (`regex_captures`), each group converted to an owned string.
#[verifier::external_body]
pub(crate) fn captures(p: &Pattern, haystack: &str) -> (r: Option<Vec<Option<String>>>)
    ensures
        r.deep_view() == regex_captures(p.source(), haystack@),
{
    p.compiled.captures(haystack).map(
        |c| c.iter().map(|m| m.map(|m| m.as_str().to_string())).collect(),
    )
}

/// The groups of every match of `p` in `haystack`, from
/// `regex::Regex::captures_iter`.
///
/// Trusted: the result is the crate's answer for the pattern's source and the
/// haystack (`regex_captures_all`), each group converted to an owned string.
#[verifier::external_body]
pub(crate) fn captures_all(p: &Pattern, haystack: &str) -> (r: Vec<Vec<Option<String>>>)
    ensures
        r.deep_view() == regex_captures_all(p.source(), haystack@),
{
    p.compiled.captures_iter(haystack).map(
        |c| c.iter().map(|m| m.map(|m| m.as_str().to_string())).collect(),
    ).collect()
}

/// Group `i` of a match, as `regex::Captures::get` gives it: `None` when
/// the group took no part or does not exist.
pub open spec fn group_of(groups: Seq<Option<Seq<char>>>, i: int) -> Option<Seq<char>> {
    if 0 <= i < groups.len() {
        groups[i]
    } else {
        None
    }
}

/// Group 1 of the first match, if there was a match.
pub open spec fn first_group(found: Option<Seq<Option<Seq<char>>>>) -> Option<Seq<char>> {
    match found {
        Some(groups) => group_of(groups, 1),
        None => None,
    }
}

/// Group `i` of a match.
pub fn group(groups: &Vec<Option<String>>, i: usize) -> (r: Option<String>)
    ensures
        r.deep_view() == group_of(groups.deep_view(), i as int),
{
    if i < groups.len() {
        match &groups[i] {
            Some(t) => Some(t.clone()),
            None => None,
        }
    } else {
        None
    }
}

/// Group 1 of the first match, if there was a match.
pub fn first_group_text(found: &Option<Vec<Option<String>>>) -> (r: Option<String>)
    ensures
        r.deep_view() == first_group(found.deep_view()),
{
    match found {
        Some(groups) => group(groups, 1),
        None => None,
    }
}

} // verus!
