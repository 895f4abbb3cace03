//! Helpers for comparing rendered markup in tests.

use regex::Regex;
use vstd::prelude::*;

verus! {

/// The pattern of the comments that a hydrating view layer leaves in its
/// output.
pub const COMMENT_PATTERN: &'static str =
    r"<!--(?:leptos-view\|src-[^>]*|hk=[^>]*\|leptos-(<>|dyn-child)-(?:start|end))-->";

/// The pattern of the hydration key attributes, with the space before them.
pub const HYDRATION_KEY_PATTERN: &'static str = r#"\s+data-hk="[^"]*""#;

/// A compiled regular expression.
#[verifier::external_type_specification]
#[verifier::external_body]
pub struct ExRegex(Regex);

/// Why a pattern did not compile.
#[verifier::external_type_specification]
#[verifier::external_body]
pub struct ExRegexError(regex::Error);

/// What `Regex::new` makes of a pattern: the compiled expression, or `None`
/// where the pattern is refused.
pub uninterp spec fn compiled(pattern: Seq<char>) -> Option<Regex>;

/// What `Regex::replace_all` returns: the haystack with every match of the
/// expression, found from left to right without overlap, replaced by the
/// replacement text, in which references to groups are expanded.
pub uninterp spec fn replaced_all(
    expression: Regex,
    haystack: Seq<char>,
    replacement: Seq<char>,
) -> Seq<char>;

/// Calls `Regex::new`, which compiles the pattern under the default settings
/// and refuses one that is invalid or too large.
#[verifier::external_body]
fn compile(pattern: &str) -> (outcome: Result<Regex, regex::Error>)
    ensures
        outcome matches Ok(expression) ==> compiled(pattern@) == Some(expression),
        outcome is Err ==> compiled(pattern@) is None,
{
    Regex::new(pattern)
}

/// Calls `Regex::replace_all` with a text as the replacement and copies the
/// result into an owned text.
#[verifier::external_body]
fn replace_all(expression: &Regex, haystack: &str, replacement: &str) -> (replaced: String)
    ensures
        replaced@ == replaced_all(*expression, haystack@, replacement@),
{
    expression.replace_all(haystack, replacement).into_owned()
}

/// One case of a table-driven rendering test.
#[derive(Debug, Default)]
pub struct TestCase {
    pub desc: &'static str,
    pub expected: &'static str,
    pub source: &'static str,
}

/// Which of the two patterns did not compile.
#[derive(Clone, Copy, Debug, PartialEq, Eq, Structural)]
pub enum CleanupError {
    CommentPattern,
    HydrationKeyPattern,
}

/// What [`clean_leptos_markup`] returns for an input.
pub open spec fn cleaned(input: Seq<char>) -> Result<Seq<char>, CleanupError> {
    match compiled(COMMENT_PATTERN@) {
        None => Err(CleanupError::CommentPattern),
        Some(comments) => match compiled(HYDRATION_KEY_PATTERN@) {
            None => Err(CleanupError::HydrationKeyPattern),
            Some(keys) => Ok(
                replaced_all(keys, replaced_all(comments, input, Seq::empty()), Seq::empty()),
            ),
        },
    }
}

/// Strips what a hydrating view layer adds to markup: first its marker
/// comments, then its `data-hk` attributes.
pub fn clean_leptos_markup(input: &str) -> (outcome: Result<String, CleanupError>)
    ensures
        match outcome {
            Ok(text) => cleaned(input@) == Ok::<Seq<char>, CleanupError>(text@),
            Err(error) => cleaned(input@) == Err::<Seq<char>, CleanupError>(error),
        },
{
    let comments = match compile(COMMENT_PATTERN) {
        Ok(expression) => expression,
        Err(_) => {
            return Err(CleanupError::CommentPattern);
        },
    };
    let without_comments = replace_all(&comments, input, "");
    let keys = match compile(HYDRATION_KEY_PATTERN) {
        Ok(expression) => expression,
        Err(_) => {
            return Err(CleanupError::HydrationKeyPattern);
        },
    };
    proof {
        reveal_strlit("");
        assert(""@ =~= Seq::<char>::empty());
    }
    Ok(replace_all(&keys, without_comments.as_str(), ""))
}

} // verus!
