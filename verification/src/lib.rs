//! Finds the words that a set of clues leaves possible.
//!
//! An input names one guess on each line: a word, and for a clue the number
//! of its letters that stand where the hidden word has them. The candidates
//! (the words without a number) that agree with every clue are kept.

pub mod error;
pub mod filter;
pub mod grammar;
pub mod guess;
pub mod lines;
pub mod loader;
pub mod matching;
pub mod parse;
pub mod pattern;
pub mod solve;

pub use error::{Error, NoGuessesError, ParseGuessError, UnequalLengthsError};
pub use filter::filter_guesses;
pub use guess::Guess;
pub use lines::split_lines;
pub use loader::{parse_guesses, parse_lines, validate};
pub use pattern::LinePattern;
pub use solve::solve;
