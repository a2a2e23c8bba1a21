//! Regular-expression matching, done by the `regex` crate.
//!
//! Nothing in this module is proved: each function states what the `regex`
//! crate is taken to do. What a pattern matches is not spelled out here; the
//! outcome of each search has a name, and the rest of the library reasons
//! about the outcome under that name.

use vstd::prelude::*;

verus! {

/// A compiled regular expression of the `regex` crate.
#[verifier::external_type_specification]
#[verifier::external_body]
pub struct ExRegex(regex::Regex);

/// Whether `regex::Regex::new` accepts `pattern`.
pub uninterp spec fn regex_compiles(pattern: Seq<char>) -> bool;

/// Whether `regex::Regex::is_match` finds a match of `pattern` anywhere in
/// `haystack`. Meaningful only where `pattern` compiles.
pub uninterp spec fn regex_is_match(pattern: Seq<char>, haystack: Seq<char>) -> bool;

/// What `regex::Regex::captures` finds for the first match of `pattern` in
/// `haystack`: `None` where nothing matches; else one item per capture group
/// of the pattern, group 0 (the whole match) first, each the text that the
/// group matched, or `None` where the group took no part in the match.
/// Meaningful only where `pattern` compiles.
pub uninterp spec fn regex_captures(pattern: Seq<char>, haystack: Seq<char>) -> Option<
    Seq<Option<Seq<char>>>,
>;

/// A pattern together with the regular expression that `regex` compiled it
/// to. [`Pattern::compile`] alone makes one, so the two always belong
/// together.
pub struct Pattern {
    source: String,
    regex: regex::Regex,
}

impl Pattern {
    /// The text of the pattern.
    pub closed spec fn source(&self) -> Seq<char> {
        self.source@
    }

    /// Compiles `source` with `regex::Regex::new`.
    ///
    /// Trusted: whether `regex` accepts a pattern depends on the pattern
    /// alone. Where it does, the compiled expression is kept beside a copy of
    /// the pattern.
    #[verifier::external_body]
    pub(crate) fn compile(source: &str) -> (compiled: Option<Pattern>)
        ensures
            compiled is Some <==> regex_compiles(source@),
            compiled matches Some(pattern) ==> pattern.source() == source@,
    {
        regex::Regex::new(source).ok().map(|regex| Pattern { source: source.to_owned(), regex })
    }

    /// Asks `regex::Regex::is_match` whether the pattern matches anywhere in
    /// `haystack`.
    ///
    /// Trusted: the answer depends on the pattern and the haystack alone.
    #[verifier::external_body]
    pub(crate) fn is_match(&self, haystack: &str) -> (found: bool)
        ensures
            found == regex_is_match(self.source(), haystack@),
    {
        self.regex.is_match(haystack)
    }

    /// Asks `regex::Regex::captures` for the first match of the pattern in
    /// `haystack`, and copies out the text of each capture group
    /// (`Captures::iter`, `Match::as_str`).
    ///
    /// Trusted: what is found depends on the pattern and the haystack alone.
    #[verifier::external_body]
    pub(crate) fn captures(&self, haystack: &str) -> (found: Option<Vec<Option<String>>>)
        ensures
            found.deep_view() == regex_captures(self.source(), haystack@),
    {
        self.regex.captures(haystack).map(
            |caps| caps.iter().map(|group| group.map(|m| m.as_str().to_owned())).collect(),
        )
    }
}

} // verus!
