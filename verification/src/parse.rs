//! Reading one line into a guess.

use crate::error::{stands_for, Error, ParseGuessError, COUNT_TOO_LONG, WRONG_FORMAT};
use crate::grammar::{
    all_of, decimal_value, lemma_decimal_value_grows, lemma_line_match_parts,
    parse_line, CharClass,
};
use crate::guess::Guess;
use crate::pattern::LinePattern;
use vstd::prelude::*;
use vstd::std_specs::iter::IteratorSpec;
use vstd::string::{StrSliceExecFns, StringExecFns};

verus! {

/// The number that `digits` denotes, unless it exceeds `limit`.
fn bounded_decimal(digits: &str, limit: usize) -> (value: Option<usize>)
    requires
        all_of(digits@, CharClass::Digit),
    ensures
        value == if decimal_value(digits@) <= limit {
            Some(decimal_value(digits@) as usize)
        } else {
            None
        },
{
    broadcast use vstd::string::group_string_axioms;

    let ghost all = digits@;
    let mut rest = digits.chars();
    let ghost mut seen: int = 0;
    let mut value: usize = 0;
    loop
        invariant_except_break
            rest.remaining() == all.skip(seen),
            rest.decrease() is Some,
        invariant
            all == digits@,
            0 <= seen <= all.len(),
            all_of(all, CharClass::Digit),
            value == decimal_value(all.take(seen)),
            value <= limit,
        ensures
            seen == all.len(),
        decreases rest.decrease()->0,
    {
        match rest.next() {
            Some(digit) => {
                assert(all.take(seen + 1).drop_last() =~= all.take(seen));
                let next: u128 = 10 * (value as u128) + (digit as u32 - '0' as u32) as u128;
                if next > limit as u128 {
                    proof {
                        lemma_decimal_value_grows(all, seen + 1);
                    }
                    return None;
                }
                value = next as usize;
                proof {
                    seen = seen + 1;
                }
            },
            None => {
                break ;
            },
        }
    }
    assert(all.take(seen) =~= all);
    Some(value)
}

impl LinePattern {
    /// Reads `line` into the guess that it denotes, or says why it denotes
    /// none.
    pub fn parse(&self, line: &str) -> (result: Result<Guess, Error>)
        ensures
            stands_for(result, parse_line(line@)),
            result matches Ok(guess) ==> guess@.well_formed(),
    {
        proof {
            lemma_line_match_parts(line@);
        }
        match self.captures(line) {
            None => Err(
                Error::ParseGuess(
                    ParseGuessError::new(
                        String::from_str(line),
                        String::from_str(WRONG_FORMAT),
                    ),
                ),
            ),
            Some((word, digits)) => {
                if digits.as_str().is_empty() {
                    Ok(Guess::new(word))
                } else {
                    match bounded_decimal(digits.as_str(), word.as_str().unicode_len()) {
                        Some(count) => Ok(Guess::new_with_count(word, count)),
                        None => Err(
                            Error::ParseGuess(
                                ParseGuessError::new(
                                    String::from_str(line),
                                    String::from_str(COUNT_TOO_LONG),
                                ),
                            ),
                        ),
                    }
                }
            },
        }
    }
}

impl vstd::std_specs::convert::TryFromSpecImpl<&str> for Guess {
    /// Two guesses with one view need not be one value, so `try_from` does
    /// not promise the very value of `try_from_spec`: its own contract says
    /// what the result stands for.
    open spec fn obeys_try_from_spec() -> bool {
        false
    }

    open spec fn try_from_spec(line: &str) -> Result<Guess, Error> {
        choose|result: Result<Guess, Error>| stands_for(result, parse_line(line@))
    }
}

impl TryFrom<&str> for Guess {
    type Error = Error;

    /// Reads `line` into the guess that it denotes, or says why it denotes
    /// none.
    fn try_from(line: &str) -> (result: Result<Guess, Error>)
        ensures
            stands_for(result, parse_line(line@)),
            result matches Ok(guess) ==> guess@.well_formed(),
    {
        LinePattern::new().parse(line)
    }
}

} // verus!
