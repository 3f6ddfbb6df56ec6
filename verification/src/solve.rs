//! From the text of an input to the words that may still be the hidden one.

use crate::error::{stands_for, Error, ErrorView};
use crate::filter::{consistent_words, filter_guesses};
use crate::loader::{load, parse_guesses};
use vstd::prelude::*;

verus! {

/// The words that an input leaves possible, or why the input cannot be
/// worked on: the guesses are read and checked, then the candidates that
/// agree with every clue are kept.
pub open spec fn answer(text: Seq<char>) -> Result<Seq<Seq<char>>, ErrorView> {
    match load(text) {
        Err(error) => Err(error),
        Ok(guesses) => Ok(consistent_words(guesses)),
    }
}

/// Reads the guesses of `text` and returns the words of the candidates that
/// agree with every clue, in the order of the input.
pub fn solve(text: &str) -> (result: Result<Vec<String>, Error>)
    ensures
        stands_for(result, answer(text@)),
{
    match parse_guesses(text) {
        Ok(guesses) => Ok(filter_guesses(&guesses)),
        Err(error) => Err(error),
    }
}

} // verus!
