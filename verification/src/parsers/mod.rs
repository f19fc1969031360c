//! Line-based parsers that turn Solidity, Vyper and Soroban (Rust) sources
//! into the language-neutral syntax tree, and the regular expressions they
//! match lines against.

pub mod solidity_parser;
pub mod vyper_parser;
pub mod rust_parser;

use vstd::prelude::*;
use crate::text::{owned, string_views};

verus! {

/// `regex::Regex`, a compiled regular expression.
#[verifier::external_type_specification]
#[verifier::external_body]
pub struct ExRegex(regex::Regex);

/// `regex::Error`, why a pattern did not compile.
#[verifier::external_type_specification]
#[verifier::external_body]
pub struct ExRegexError(regex::Error);

/// Why a source could not be parsed.
#[derive(Debug)]
pub enum ParserError {
    /// A pattern the parser uses did not compile.
    RegexError(regex::Error),
    /// The source does not have the expected shape.
    ParseError(String),
}

/// Whether `Regex::new` accepts `pattern`: a valid pattern whose compiled
/// form stays within the default size limit.
pub uninterp spec fn regex_compiles(pattern: Seq<char>) -> bool;

/// What `Regex::captures` finds for `pattern` in `haystack`: `None` when
/// there is no match, else the text of each capture group of the
/// leftmost-first match (group 0 is the whole match), `None` for a group
/// that took no part in it.
pub uninterp spec fn regex_captures(pattern: Seq<char>, haystack: Seq<char>) -> Option<
    Seq<Option<Seq<char>>>,
>;

/// The text of capture group `i` of the match of `pattern` in `haystack`;
/// `None` when there is no match or the group took no part in it.
pub open spec fn group_of(pattern: Seq<char>, haystack: Seq<char>, i: int) -> Option<Seq<char>> {
    match regex_captures(pattern, haystack) {
        Some(gs) => if 0 <= i < gs.len() {
            gs[i]
        } else {
            None
        },
        None => None,
    }
}

/// A compiled regular expression together with the pattern it was compiled
/// from. Only `Pattern::compile` builds one, so `re` always is the
/// compilation of `source`.
pub struct Pattern {
    source: String,
    re: regex::Regex,
}

/// Calls `Regex::new`: it succeeds exactly when the pattern compiles
/// (`regex_compiles`); what the compiled value does is stated through
/// `Pattern` and `regex_captures`.
#[verifier::external_body]
fn regex_new(pattern: &str) -> (r: Result<regex::Regex, regex::Error>)
    ensures
        r is Ok <==> regex_compiles(pattern@),
{
    regex::Regex::new(pattern)
}

/// The view of optional capture groups.
pub open spec fn groups_view(r: Option<Vec<Option<String>>>) -> Option<Seq<Option<Seq<char>>>> {
    match r {
        Some(gs) => Some(
            gs@.map_values(
                |g: Option<String>|
                    match g {
                        Some(t) => Some(t@),
                        None => None,
                    },
            ),
        ),
        None => None,
    }
}

/// Calls `Regex::captures` on the pattern's compiled form, converting the
/// captures to the text of each group. The result is named
/// `regex_captures(source, haystack)`; which match is found is not stated.
#[verifier::external_body]
fn pattern_captures(p: &Pattern, haystack: &str) -> (r: Option<Vec<Option<String>>>)
    ensures
        groups_view(r) == regex_captures(p.source@, haystack@),
{
    p.re.captures(haystack).map(|c| c.iter().map(|m| m.map(|m| m.as_str().to_string())).collect())
}

impl Pattern {
    /// The pattern text this was compiled from.
    pub closed spec fn source_view(&self) -> Seq<char> {
        self.source@
    }

    /// Compiles `pattern`; fails exactly when it does not compile.
    pub fn compile(pattern: &str) -> (r: Result<Pattern, regex::Error>)
        ensures
            r is Ok <==> regex_compiles(pattern@),
            r matches Ok(p) ==> p.source_view() == pattern@,
    {
        match regex_new(pattern) {
            Ok(re) => Ok(Pattern { source: owned(pattern), re }),
            Err(e) => Err(e),
        }
    }

    /// The text of capture group `i` of the match in `haystack`, if any.
    pub fn group(&self, haystack: &str, i: usize) -> (r: Option<String>)
        ensures
            match r {
                Some(t) => group_of(self.source_view(), haystack@, i as int) == Some(t@),
                None => group_of(self.source_view(), haystack@, i as int) is None,
            },
    {
        match pattern_captures(self, haystack) {
            Some(gs) => {
                if i < gs.len() {
                    match &gs[i] {
                        Some(t) => Some(t.clone()),
                        None => None,
                    }
                } else {
                    None
                }
            },
            None => None,
        }
    }
}

/// A parse outcome: the parsed value, or `None` for a pattern that did not
/// compile, or the message of a parse error.
pub open spec fn parse_error_view(e: ParserError) -> Option<Seq<char>> {
    match e {
        ParserError::RegexError(_) => None,
        ParserError::ParseError(m) => Some(m@),
    }
}

} // verus!
