//! What can go wrong while guesses are read.

use vstd::prelude::*;
use vstd::string::StringExecFns;

verus! {

/// A line that is no guess: it holds no word, or it declares more matches
/// than its word has letters.
#[derive(Debug, PartialEq, Eq)]
pub struct ParseGuessError {
    line: String,
    detail: String,
}

/// What a [`ParseGuessError`] stands for: the offending line and the reason.
pub struct ParseGuessErrorView {
    pub line: Seq<char>,
    pub detail: Seq<char>,
}

impl View for ParseGuessError {
    type V = ParseGuessErrorView;

    closed spec fn view(&self) -> ParseGuessErrorView {
        ParseGuessErrorView { line: self.line@, detail: self.detail@ }
    }
}

/// The reason given for a line without a word.
pub const WRONG_FORMAT: &'static str = "wrong guess format";

/// The reason given for a count that exceeds the length of its word.
pub const COUNT_TOO_LONG: &'static str = "count is longer than the word";

impl ParseGuessErrorView {
    /// The text that describes this error.
    pub open spec fn message(self) -> Seq<char> {
        "cannot parse line \""@ + self.line + "\" into Guess: "@ + self.detail
    }
}

impl ParseGuessError {
    /// An error about `line`, with the reason in `detail`.
    pub fn new(line: String, detail: String) -> (error: ParseGuessError)
        ensures
            error@ == (ParseGuessErrorView { line: line@, detail: detail@ }),
    {
        ParseGuessError { line, detail }
    }

    /// The line that could not be parsed.
    pub fn line(&self) -> (line: &String)
        ensures
            line@ == self@.line,
    {
        &self.line
    }

    /// Why the line could not be parsed.
    pub fn detail(&self) -> (detail: &String)
        ensures
            detail@ == self@.detail,
    {
        &self.detail
    }

    /// The text that describes this error.
    pub fn message(&self) -> (text: String)
        ensures
            text@ == self@.message(),
    {
        let mut text = String::from_str("cannot parse line \"");
        text.append(self.line.as_str());
        text.append("\" into Guess: ");
        text.append(self.detail.as_str());
        text
    }
}

impl Clone for ParseGuessError {
    fn clone(&self) -> (copy: ParseGuessError)
        ensures
            copy@ == self@,
    {
        ParseGuessError { line: self.line.clone(), detail: self.detail.clone() }
    }
}

/// The input held no guess at all.
#[derive(Debug, PartialEq, Eq)]
pub struct NoGuessesError {}

impl NoGuessesError {
    /// The text that describes this error.
    pub fn message(&self) -> (text: String)
        ensures
            text@ == "no guesses in input"@,
    {
        String::from_str("no guesses in input")
    }
}

impl Clone for NoGuessesError {
    fn clone(&self) -> (copy: NoGuessesError)
        ensures
            copy == *self,
    {
        NoGuessesError {  }
    }
}

/// Some word is not as long as the first one.
#[derive(Debug, PartialEq, Eq)]
pub struct UnequalLengthsError {}

impl UnequalLengthsError {
    /// The text that describes this error.
    pub fn message(&self) -> (text: String)
        ensures
            text@ == "guess words have unequal lengths"@,
    {
        String::from_str("guess words have unequal lengths")
    }
}

impl Clone for UnequalLengthsError {
    fn clone(&self) -> (copy: UnequalLengthsError)
        ensures
            copy == *self,
    {
        UnequalLengthsError {  }
    }
}

/// Every way in which reading the guesses can fail.
#[derive(Debug, PartialEq, Eq)]
pub enum Error {
    ParseGuess(ParseGuessError),
    NoGuesses(NoGuessesError),
    UnequalLengths(UnequalLengthsError),
}

/// What an [`Error`] stands for.
pub enum ErrorView {
    ParseGuess(ParseGuessErrorView),
    NoGuesses,
    UnequalLengths,
}

impl ErrorView {
    /// The text that describes this error.
    pub open spec fn message(self) -> Seq<char> {
        match self {
            ErrorView::ParseGuess(error) => "parsing guess error: "@ + error.message(),
            ErrorView::NoGuesses => "no guesses in input"@,
            ErrorView::UnequalLengths => "guess words have unequal lengths"@,
        }
    }
}

impl View for Error {
    type V = ErrorView;

    open spec fn view(&self) -> ErrorView {
        match self {
            Error::ParseGuess(error) => ErrorView::ParseGuess(error@),
            Error::NoGuesses(_) => ErrorView::NoGuesses,
            Error::UnequalLengths(_) => ErrorView::UnequalLengths,
        }
    }
}

/// Whether `result` stands for `outcome`: a success for the value it holds,
/// a failure for the error it holds.
pub open spec fn stands_for<T: DeepView>(
    result: Result<T, Error>,
    outcome: Result<T::V, ErrorView>,
) -> bool {
    match result {
        Ok(value) => outcome == Ok::<T::V, ErrorView>(value.deep_view()),
        Err(error) => outcome == Err::<T::V, ErrorView>(error@),
    }
}

impl Error {
    /// The text that describes this error.
    pub fn message(&self) -> (text: String)
        ensures
            text@ == self@.message(),
    {
        match self {
            Error::ParseGuess(error) => {
                let mut text = String::from_str("parsing guess error: ");
                let inner = error.message();
                text.append(inner.as_str());
                text
            },
            Error::NoGuesses(error) => error.message(),
            Error::UnequalLengths(error) => error.message(),
        }
    }
}

impl Clone for Error {
    fn clone(&self) -> (copy: Error)
        ensures
            copy@ == self@,
    {
        match self {
            Error::ParseGuess(error) => Error::ParseGuess(error.clone()),
            Error::NoGuesses(error) => Error::NoGuesses(error.clone()),
            Error::UnequalLengths(error) => Error::UnequalLengths(error.clone()),
        }
    }
}

impl From<ParseGuessError> for Error {
    fn from(error: ParseGuessError) -> (result: Error) {
        Error::ParseGuess(error)
    }
}

impl vstd::std_specs::convert::FromSpecImpl<ParseGuessError> for Error {
    open spec fn obeys_from_spec() -> bool {
        true
    }

    open spec fn from_spec(error: ParseGuessError) -> Error {
        Error::ParseGuess(error)
    }
}

impl From<NoGuessesError> for Error {
    fn from(error: NoGuessesError) -> (result: Error) {
        Error::NoGuesses(error)
    }
}

impl vstd::std_specs::convert::FromSpecImpl<NoGuessesError> for Error {
    open spec fn obeys_from_spec() -> bool {
        true
    }

    open spec fn from_spec(error: NoGuessesError) -> Error {
        Error::NoGuesses(error)
    }
}

impl From<UnequalLengthsError> for Error {
    fn from(error: UnequalLengthsError) -> (result: Error) {
        Error::UnequalLengths(error)
    }
}

impl vstd::std_specs::convert::FromSpecImpl<UnequalLengthsError> for Error {
    open spec fn obeys_from_spec() -> bool {
        true
    }

    open spec fn from_spec(error: UnequalLengthsError) -> Error {
        Error::UnequalLengths(error)
    }
}

} // verus!
