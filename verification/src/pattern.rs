//! The regular-expression engine, as the parser sees it.
//!
//! The engine itself is not verified. For an expression compiled from a
//! pattern text alone, with none of the engine's options, what a search or a
//! replacement returns is a function of that text and of the haystack. The
//! functions below give those results names, so that the parser's contracts
//! can say exactly which engine results they are built from.

use vstd::prelude::*;
use regex::Regex;

verus! {

/// `regex::Regex`, a compiled expression. Nothing of its inside is seen here.
#[verifier::external_type_specification]
#[verifier::external_body]
pub struct ExRegex(regex::Regex);

/// `regex::Error`, the reason a pattern was not accepted.
#[verifier::external_type_specification]
#[verifier::external_body]
pub struct ExRegexError(regex::Error);

/// Whether the engine accepts `pattern` (valid syntax, within its default size limit).
pub uninterp spec fn regex_compiles(pattern: Seq<char>) -> bool;

/// The text that a search for `pattern` in `haystack` reports: of the
/// matches that begin leftmost, the one the engine prefers; `None` where
/// nothing matches.
pub uninterp spec fn regex_first_match(pattern: Seq<char>, haystack: Seq<char>) -> Option<Seq<char>>;

/// `haystack` with every non-overlapping match of `pattern` replaced by the
/// expansion of `replacement`.
pub uninterp spec fn regex_replace_all(
    pattern: Seq<char>,
    haystack: Seq<char>,
    replacement: Seq<char>,
) -> Seq<char>;

/// A pattern together with the expression compiled from it.
///
/// Both fields are private and `Pattern::new` is the only place that fills
/// them, so the expression is always the one the engine builds from the
/// text alone, under its default options. The searches below rely on that.
#[derive(Debug)]
pub struct Pattern {
    source: String,
    compiled: Regex,
}

/// A pattern the engine did not accept.
#[derive(Debug, Clone)]
pub struct RejectedPattern {
    pub source: String,
}

impl View for Pattern {
    type V = Seq<char>;

    /// The pattern text.
    closed spec fn view(&self) -> Seq<char> {
        self.source@
    }
}

impl Pattern {
    /// Compiles `source`. Succeeds exactly on the patterns the engine
    /// accepts.
    pub fn new(source: &str) -> (r: Result<Pattern, RejectedPattern>)
        ensures
            r is Ok <==> regex_compiles(source@),
            r matches Ok(pattern) ==> pattern@ == source@,
            r matches Err(rejected) ==> rejected.source@ == source@,
    {
        match compile(source) {
            Ok(compiled) => Ok(Pattern { source: source.to_owned(), compiled }),
            Err(_) => Err(RejectedPattern { source: source.to_owned() }),
        }
    }

    /// The pattern text.
    pub fn as_str(&self) -> (source: &str)
        ensures
            source@ == self@,
    {
        self.source.as_str()
    }
}

/// `Regex::new`: compiles `source` under the engine's default options.
/// Succeeds exactly on the patterns the engine accepts.
#[verifier::external_body]
fn compile(source: &str) -> (r: Result<Regex, regex::Error>)
    ensures
        r is Ok <==> regex_compiles(source@),
{
    Regex::new(source)
}

/// `Regex::find`: the match the engine reports for the expression of
/// `pattern` in `haystack`, returned as owned text.
#[verifier::external_body]
pub(crate) fn first_match(pattern: &Pattern, haystack: &str) -> (r: Option<String>)
    ensures
        r matches Some(m) ==> regex_first_match(pattern@, haystack@) == Some(m@),
        r is None ==> regex_first_match(pattern@, haystack@) is None,
{
    pattern.compiled.find(haystack).map(|m| m.as_str().to_string())
}

/// `Regex::replace_all`: replaces every non-overlapping match of the
/// expression of `pattern` in `haystack` by `replacement`, returned as
/// owned text.
#[verifier::external_body]
pub(crate) fn replace_all(pattern: &Pattern, haystack: &str, replacement: &str) -> (r: String)
    ensures
        r@ == regex_replace_all(pattern@, haystack@, replacement@),
{
    pattern.compiled.replace_all(haystack, replacement).into_owned()
}

} // verus!
