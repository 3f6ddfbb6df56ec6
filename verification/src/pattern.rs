//! The compiled pattern that finds the word and the digits of a line.

use crate::grammar::line_match;
use regex::Regex;
use vstd::prelude::*;

verus! {

/// Declares `regex::Regex`, a compiled pattern. Nothing is known of what a
/// value of it holds but what the items below say.
#[verifier::external_type_specification]
#[verifier::external_body]
pub struct ExRegex(Regex);

/// The grammar of a line in the syntax of the `regex` crate: a group `word`
/// of one or more ASCII letters, any number of ASCII blanks, and a group
/// `count` of any number of ASCII digits.
pub const GUESS_PATTERN: &'static str =
    "(?P<word>[[:alpha:]]+)[[:space:]]*(?P<count>[[:digit:]]*)";

/// The text that a compiled pattern was made from, as `Regex::as_str` gives
/// it back.
pub uninterp spec fn pattern_source(regex: Regex) -> Seq<char>;

/// Compiles the line pattern with `Regex::new`.
///
/// Trusted: that `Regex::new` accepts [`GUESS_PATTERN`], and that the
/// `Regex` it returns keeps the text it was given.
#[verifier::external_body]
fn compile(pattern: &str) -> (regex: Regex)
    requires
        pattern@ == GUESS_PATTERN@,
    ensures
        pattern_source(regex) == pattern@,
{
    Regex::new(pattern).expect("could not compile regexp")
}

/// Searches `line` with `Regex::captures` and hands out the text of the
/// groups `word` and `count`, read with `Captures::name` and `Match::as_str`.
///
/// Trusted: that the search of a `Regex` made from [`GUESS_PATTERN`] finds
/// what [`line_match`] describes. The crate documents that a search reports
/// the leftmost match, that `+` and `*` are greedy, and that the three
/// bracketed classes hold ASCII characters only: `[A-Za-z]`, `[\t\n\v\f\r ]`
/// and `[0-9]`. A match can start at a letter and nowhere else, so the
/// leftmost one starts at the first letter of the line. Nothing after the
/// letters is required, so each of the three repetitions takes the longest
/// run there is: no shorter one is ever tried.
#[verifier::external_body]
fn captures(regex: &Regex, line: &str) -> (found: Option<(String, String)>)
    requires
        pattern_source(*regex) == GUESS_PATTERN@,
    ensures
        match found {
            Some((word, digits)) => line_match(line@) == Some((word@, digits@)),
            None => line_match(line@) is None,
        },
{
    let groups = regex.captures(line)?;
    let word = groups.name("word")?.as_str().to_string();
    let digits = groups.name("count")?.as_str().to_string();
    Some((word, digits))
}

/// The line pattern, compiled once and used for every line.
pub struct LinePattern {
    regex: Regex,
}

impl LinePattern {
    #[verifier::type_invariant]
    spec fn made_from_guess_pattern(&self) -> bool {
        pattern_source(self.regex) == GUESS_PATTERN@
    }

    /// The text that this pattern was compiled from.
    pub closed spec fn source(&self) -> Seq<char> {
        pattern_source(self.regex)
    }

    /// Compiles [`GUESS_PATTERN`].
    pub fn new() -> (pattern: LinePattern)
        ensures
            pattern.source() == GUESS_PATTERN@,
    {
        LinePattern { regex: compile(GUESS_PATTERN) }
    }

    /// The word and the digits that `line` holds, if it holds a word.
    pub(crate) fn captures(&self, line: &str) -> (found: Option<(String, String)>)
        ensures
            match found {
                Some((word, digits)) => line_match(line@) == Some((word@, digits@)),
                None => line_match(line@) is None,
            },
    {
        proof {
            use_type_invariant(self);
        }
        captures(&self.regex, line)
    }
}

} // verus!
