//! Regular expressions over link paths and targets.
//!
//! Matching and substitution are done by the `regex` crate.  The library
//! speaks of their results through names: what a pattern matches and what a
//! substitution yields are functions of the texts involved, and the contracts
//! of the filtering and editing code are stated over them.

use vstd::prelude::*;

verus! {

/// The error type of the `regex` crate.
#[verifier::external_type_specification]
#[verifier::external_body]
pub struct ExRegexError(regex::Error);

/// Whether `regex::Regex::new` accepts the pattern.
pub uninterp spec fn pattern_compiles(pattern: Seq<char>) -> bool;

/// Whether the compiled pattern matches anywhere in the text: the result of
/// `regex::Regex::is_match`.
pub uninterp spec fn pattern_matches(pattern: Seq<char>, text: Seq<char>) -> bool;

/// The text with the leftmost match of the pattern replaced: the result of
/// `regex::Regex::replace`.
pub uninterp spec fn replaced_first(
    pattern: Seq<char>,
    text: Seq<char>,
    replacement: Seq<char>,
) -> Seq<char>;

/// The text with every match of the pattern replaced: the result of
/// `regex::Regex::replace_all`.
pub uninterp spec fn replaced_all(
    pattern: Seq<char>,
    text: Seq<char>,
    replacement: Seq<char>,
) -> Seq<char>;

/// A pattern that could not be used.
#[derive(Debug)]
pub struct PatternError {
    /// The pattern as it was given.
    pub pattern: String,
    /// What the regex compiler said of it.
    pub message: String,
}

/// Compiles `pattern` with `regex::Regex::new` and asks `Regex::is_match`
/// whether it matches anywhere in `text`.
///
/// Trusted: the call succeeds exactly for the patterns that compile, and the
/// answer is then the one named `pattern_matches`.
#[verifier::external_body]
fn regex_is_match(pattern: &str, text: &str) -> (r: Result<bool, regex::Error>)
    ensures
        r is Ok == pattern_compiles(pattern@),
        r is Ok ==> r->Ok_0 == pattern_matches(pattern@, text@),
{
    match regex::Regex::new(pattern) {
        Ok(re) => Ok(re.is_match(text)),
        Err(e) => Err(e),
    }
}

/// Compiles `pattern` with `regex::Regex::new` and replaces its leftmost
/// match in `text` with `Regex::replace`; `replacement` may refer to capture
/// groups.
///
/// Trusted: the call succeeds exactly for the patterns that compile, the
/// result is then the one named `replaced_first`, and a text without a match
/// comes back unchanged.
#[verifier::external_body]
fn regex_replace(pattern: &str, text: &str, replacement: &str) -> (r: Result<String, regex::Error>)
    ensures
        r is Ok == pattern_compiles(pattern@),
        r is Ok ==> r->Ok_0@ == replaced_first(pattern@, text@, replacement@),
        r is Ok && !pattern_matches(pattern@, text@) ==> r->Ok_0@ == text@,
{
    match regex::Regex::new(pattern) {
        Ok(re) => Ok(re.replace(text, replacement).into_owned()),
        Err(e) => Err(e),
    }
}

/// Compiles `pattern` with `regex::Regex::new` and replaces every match in
/// `text` with `Regex::replace_all`; `replacement` may refer to capture
/// groups.
///
/// Trusted: the call succeeds exactly for the patterns that compile, the
/// result is then the one named `replaced_all`, and a text without a match
/// comes back unchanged.
#[verifier::external_body]
fn regex_replace_all(
    pattern: &str,
    text: &str,
    replacement: &str,
) -> (r: Result<String, regex::Error>)
    ensures
        r is Ok == pattern_compiles(pattern@),
        r is Ok ==> r->Ok_0@ == replaced_all(pattern@, text@, replacement@),
        r is Ok && !pattern_matches(pattern@, text@) ==> r->Ok_0@ == text@,
{
    match regex::Regex::new(pattern) {
        Ok(re) => Ok(re.replace_all(text, replacement).into_owned()),
        Err(e) => Err(e),
    }
}

/// The message of a regex error, as its `Display` writes it.  Nothing is
/// claimed of the text.
#[verifier::external_body]
fn regex_error_message(e: &regex::Error) -> String {
    e.to_string()
}

fn pattern_error(pattern: &str, e: &regex::Error) -> (err: PatternError)
    ensures
        err.pattern@ == pattern@,
{
    PatternError { pattern: pattern.to_owned(), message: regex_error_message(e) }
}

/// Whether `pattern` matches anywhere in `text`; an error for a pattern that
/// does not compile.
pub fn is_match(pattern: &str, text: &str) -> (r: Result<bool, PatternError>)
    ensures
        r is Ok == pattern_compiles(pattern@),
        r is Ok ==> r->Ok_0 == pattern_matches(pattern@, text@),
        r is Err ==> r->Err_0.pattern@ == pattern@,
{
    match regex_is_match(pattern, text) {
        Ok(found) => Ok(found),
        Err(e) => Err(pattern_error(pattern, &e)),
    }
}

/// Checks that `pattern` compiles.
pub fn check_pattern(pattern: &str) -> (r: Result<(), PatternError>)
    ensures
        r is Ok == pattern_compiles(pattern@),
        r is Err ==> r->Err_0.pattern@ == pattern@,
{
    match regex_is_match(pattern, "") {
        Ok(_) => Ok(()),
        Err(e) => Err(pattern_error(pattern, &e)),
    }
}

/// The text that a substitution yields: the first match replaced, or all of
/// them.
pub open spec fn substituted(
    pattern: Seq<char>,
    text: Seq<char>,
    replacement: Seq<char>,
    every: bool,
) -> Seq<char> {
    if every {
        replaced_all(pattern, text, replacement)
    } else {
        replaced_first(pattern, text, replacement)
    }
}

/// Replaces the first match of `pattern` in `text`, or every match where
/// `every` is set.  A text without a match comes back unchanged; a pattern
/// that does not compile is an error.
pub fn substitute(
    pattern: &str,
    text: &str,
    replacement: &str,
    every: bool,
) -> (r: Result<String, PatternError>)
    ensures
        r is Ok == pattern_compiles(pattern@),
        r is Ok ==> r->Ok_0@ == substituted(pattern@, text@, replacement@, every),
        r is Ok && !pattern_matches(pattern@, text@) ==> r->Ok_0@ == text@,
        r is Err ==> r->Err_0.pattern@ == pattern@,
{
    let done = if every {
        regex_replace_all(pattern, text, replacement)
    } else {
        regex_replace(pattern, text, replacement)
    };
    match done {
        Ok(s) => Ok(s),
        Err(e) => Err(pattern_error(pattern, &e)),
    }
}

} // verus!
