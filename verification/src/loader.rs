//! Reading all the guesses of an input, and checking them as a whole.

use crate::error::{stands_for, Error, ErrorView, NoGuessesError, UnequalLengthsError};
use crate::grammar::{lemma_parse_line_well_formed, parse_line};
use crate::guess::{Guess, GuessView};
use crate::lines::{lines_of, split_lines};
use crate::pattern::LinePattern;
use vstd::prelude::*;

verus! {

/// The guesses that the lines denote, in the order of the lines, or the
/// failure of the first line that denotes none.
pub open spec fn guesses_of(lines: Seq<Seq<char>>) -> Result<Seq<GuessView>, ErrorView>
    decreases lines.len(),
{
    if lines.len() == 0 {
        Ok(Seq::empty())
    } else {
        match guesses_of(lines.drop_last()) {
            Err(error) => Err(error),
            Ok(guesses) => match parse_line(lines.last()) {
                Err(error) => Err(error),
                Ok(guess) => Ok(guesses.push(guess)),
            },
        }
    }
}

/// Whether every word is as long as the first one.
pub open spec fn same_lengths(guesses: Seq<GuessView>) -> bool {
    forall|i: int|
        0 <= i < guesses.len() ==> (#[trigger] guesses[i]).word.len() == guesses[0].word.len()
}

/// What holds of the guesses of every input that was read: there is one at
/// least, each is well formed, and all words are of one length.
pub open spec fn is_valid(guesses: Seq<GuessView>) -> bool {
    &&& guesses.len() > 0
    &&& same_lengths(guesses)
    &&& forall|i: int| 0 <= i < guesses.len() ==> (#[trigger] guesses[i]).well_formed()
}

/// What is wrong with a list of guesses, if anything: that it is empty, or
/// that some word is not as long as the first one.
pub open spec fn defect(guesses: Seq<GuessView>) -> Option<ErrorView> {
    if guesses.len() == 0 {
        Some(ErrorView::NoGuesses)
    } else if !same_lengths(guesses) {
        Some(ErrorView::UnequalLengths)
    } else {
        None
    }
}

/// The guesses that an input holds, or why it cannot be worked on. A line
/// that denotes no guess comes before every other failure, then an input
/// without guesses, then words of unequal lengths.
pub open spec fn load(text: Seq<char>) -> Result<Seq<GuessView>, ErrorView> {
    match guesses_of(lines_of(text)) {
        Err(error) => Err(error),
        Ok(guesses) => match defect(guesses) {
            Some(error) => Err(error),
            None => Ok(guesses),
        },
    }
}

/// Once a line has failed, more lines do not change the failure.
pub proof fn lemma_first_failure_stays(lines: Seq<Seq<char>>, n: int)
    requires
        0 <= n <= lines.len(),
        guesses_of(lines.take(n)) is Err,
    ensures
        guesses_of(lines) == guesses_of(lines.take(n)),
    decreases lines.len() - n,
{
    if n == lines.len() {
        assert(lines.take(n) =~= lines);
    } else {
        assert(lines.drop_last().take(n) =~= lines.take(n));
        lemma_first_failure_stays(lines.drop_last(), n);
    }
}

/// Lines that all denote guesses give as many guesses, each the one that its
/// line denotes.
pub proof fn lemma_guesses_of_each_line(lines: Seq<Seq<char>>)
    ensures
        guesses_of(lines) matches Ok(guesses) ==> {
            &&& guesses.len() == lines.len()
            &&& forall|i: int|
                0 <= i < lines.len() ==> parse_line(#[trigger] lines[i]) == Ok::<
                    GuessView,
                    ErrorView,
                >(guesses[i])
        },
    decreases lines.len(),
{
    if lines.len() > 0 {
        lemma_guesses_of_each_line(lines.drop_last());
        if let Ok(guesses) = guesses_of(lines) {
            assert forall|i: int| 0 <= i < lines.len() implies parse_line(#[trigger] lines[i])
                == Ok::<GuessView, ErrorView>(guesses[i]) by {
                if i < lines.len() - 1 {
                    assert(lines[i] == lines.drop_last()[i]);
                }
            }
        }
    }
}

/// Lines fail as the first of them that denotes no guess fails.
pub proof fn lemma_guesses_of_first_failure(lines: Seq<Seq<char>>)
    ensures
        guesses_of(lines) matches Err(error) ==> exists|i: int|
            {
                &&& 0 <= i < lines.len()
                &&& parse_line(#[trigger] lines[i]) == Err::<GuessView, ErrorView>(error)
                &&& forall|j: int| 0 <= j < i ==> parse_line(#[trigger] lines[j]) is Ok
            },
    decreases lines.len(),
{
    if lines.len() > 0 {
        let earlier = lines.drop_last();
        lemma_guesses_of_first_failure(earlier);
        lemma_guesses_of_each_line(earlier);
        if let Err(error) = guesses_of(lines) {
            let i = if let Err(_) = guesses_of(earlier) {
                choose|i: int|
                    {
                        &&& 0 <= i < earlier.len()
                        &&& parse_line(#[trigger] earlier[i]) == Err::<GuessView, ErrorView>(
                            error,
                        )
                        &&& forall|j: int| 0 <= j < i ==> parse_line(#[trigger] earlier[j]) is Ok
                    }
            } else {
                lines.len() - 1
            };
            assert(parse_line(lines[i]) == Err::<GuessView, ErrorView>(error));
            assert forall|j: int| 0 <= j < i implies parse_line(#[trigger] lines[j]) is Ok by {
                assert(lines[j] == earlier[j]);
            }
        }
    }
}

/// The guesses of lines are all well formed.
pub proof fn lemma_guesses_of_well_formed(lines: Seq<Seq<char>>)
    ensures
        guesses_of(lines) matches Ok(guesses) ==> forall|i: int|
            0 <= i < guesses.len() ==> (#[trigger] guesses[i]).well_formed(),
{
    lemma_guesses_of_each_line(lines);
    if let Ok(guesses) = guesses_of(lines) {
        assert forall|i: int| 0 <= i < guesses.len() implies (#[trigger] guesses[i]).well_formed(
        ) by {
            lemma_parse_line_well_formed(lines[i]);
        }
    }
}

/// The guesses that an input holds are valid.
pub proof fn lemma_load_is_valid(text: Seq<char>)
    ensures
        load(text) matches Ok(guesses) ==> is_valid(guesses),
{
    lemma_guesses_of_well_formed(lines_of(text));
}

/// Reads each line into a guess, and stops at the first line that denotes
/// none.
pub fn parse_lines(lines: &Vec<String>) -> (result: Result<Vec<Guess>, Error>)
    ensures
        stands_for(result, guesses_of(lines.deep_view())),
        result matches Ok(guesses) ==> {
            &&& guesses.len() == lines.len()
            &&& forall|i: int|
                0 <= i < guesses.len() ==> (#[trigger] guesses.deep_view()[i]).well_formed()
        },
{
    proof {
        lemma_guesses_of_each_line(lines.deep_view());
        lemma_guesses_of_well_formed(lines.deep_view());
    }
    let pattern = LinePattern::new();
    let mut guesses: Vec<Guess> = Vec::new();
    let ghost all = lines.deep_view();
    assert(guesses.deep_view() =~= Seq::<GuessView>::empty());
    let mut i: usize = 0;
    while i < lines.len()
        invariant
            all == lines.deep_view(),
            0 <= i <= lines.len(),
            guesses_of(all.take(i as int)) == Ok::<Seq<GuessView>, ErrorView>(
                guesses.deep_view(),
            ),
        decreases lines.len() - i,
    {
        let ghost before = guesses.deep_view();
        proof {
            assert(all.take(i + 1).drop_last() =~= all.take(i as int));
        }
        match pattern.parse(lines[i].as_str()) {
            Ok(guess) => {
                guesses.push(guess);
                assert(guesses.deep_view() =~= before.push(guess@));
            },
            Err(error) => {
                proof {
                    lemma_first_failure_stays(all, i + 1);
                }
                return Err(error);
            },
        }
        i += 1;
    }
    assert(all.take(i as int) =~= all);
    Ok(guesses)
}

/// Checks that there is a guess and that all words are of one length.
pub fn validate(guesses: &Vec<Guess>) -> (result: Result<(), Error>)
    ensures
        match result {
            Ok(_) => defect(guesses.deep_view()) is None,
            Err(error) => defect(guesses.deep_view()) == Some(error@),
        },
{
    if guesses.len() == 0 {
        return Err(Error::from(NoGuessesError {  }));
    }
    let ghost all = guesses.deep_view();
    let len = guesses[0].word_len();
    let mut i: usize = 0;
    while i < guesses.len()
        invariant
            all == guesses.deep_view(),
            0 <= i <= guesses.len(),
            guesses.len() > 0,
            len == all[0].word.len(),
            forall|j: int| 0 <= j < i ==> (#[trigger] all[j]).word.len() == len,
        decreases guesses.len() - i,
    {
        if guesses[i].word_len() != len {
            assert(all[i as int].word.len() != all[0].word.len());
            return Err(Error::from(UnequalLengthsError {  }));
        }
        i += 1;
    }
    Ok(())
}

/// Reads the guesses of an input, one for each line, and checks them as a
/// whole.
pub fn parse_guesses(text: &str) -> (result: Result<Vec<Guess>, Error>)
    ensures
        stands_for(result, load(text@)),
        result matches Ok(guesses) ==> is_valid(guesses.deep_view()),
{
    proof {
        lemma_load_is_valid(text@);
    }
    let lines = split_lines(text);
    let guesses = parse_lines(&lines)?;
    validate(&guesses)?;
    Ok(guesses)
}

} // verus!
