//! A guess: a word, and for a clue the number of its letters that sit where
//! the hidden word has them.

use crate::matching::{common_letters, lemma_common_letters_bound, shorter_len, matches_within};
use vstd::prelude::*;
use vstd::std_specs::iter::IteratorSpec;
use vstd::string::StrSliceExecFns;
use vstd::utf8::encode_utf8;

verus! {

/// A word with an optional count of positional matches against the hidden
/// word. With a count the guess is a clue, without one it is a candidate.
#[derive(Debug, PartialEq, Eq)]
pub struct Guess {
    word: String,
    count: Option<usize>,
}

/// What a [`Guess`] stands for: its letters and its count.
pub struct GuessView {
    pub word: Seq<char>,
    pub count: Option<nat>,
}

impl GuessView {
    /// A guess with a declared count.
    pub open spec fn is_clue(self) -> bool {
        self.count is Some
    }

    /// A guess without a declared count.
    pub open spec fn is_candidate(self) -> bool {
        self.count is None
    }
}

impl View for Guess {
    type V = GuessView;

    closed spec fn view(&self) -> GuessView {
        GuessView {
            word: self.word@,
            count: match self.count {
                Some(c) => Some(c as nat),
                None => None,
            },
        }
    }
}

impl DeepView for Guess {
    type V = GuessView;

    open spec fn deep_view(&self) -> GuessView {
        self@
    }
}

impl Clone for Guess {
    fn clone(&self) -> (copy: Guess)
        ensures
            copy@ == self@,
    {
        Guess { word: self.word.clone(), count: self.count }
    }
}

/// A text has no more chars than its encoding has bytes.
proof fn lemma_chars_fit_in_bytes(chars: Seq<char>)
    ensures
        chars.len() <= encode_utf8(chars).len(),
    decreases chars.len(),
{
    if chars.len() > 0 {
        lemma_chars_fit_in_bytes(chars.drop_first());
    }
}

impl Guess {
    /// A candidate: a word without a count.
    pub fn new(word: String) -> (guess: Guess)
        ensures
            guess@ == (GuessView { word: word@, count: None }),
    {
        Guess { word, count: None }
    }

    /// A clue: a word with the number of its positional matches.
    pub fn new_with_count(word: String, count: usize) -> (guess: Guess)
        ensures
            guess@ == (GuessView { word: word@, count: Some(count as nat) }),
    {
        Guess { word, count: Some(count) }
    }

    /// The word of this guess.
    pub fn word(&self) -> (word: &String)
        ensures
            word@ == self@.word,
    {
        &self.word
    }

    /// The declared count, if this guess is a clue.
    pub fn count(&self) -> (count: Option<usize>)
        ensures
            match count {
                Some(c) => self@.count == Some(c as nat),
                None => self@.count is None,
            },
    {
        self.count
    }

    /// The number of letters of the word.
    pub fn word_len(&self) -> (len: usize)
        ensures
            len == self@.word.len(),
    {
        self.word.as_str().unicode_len()
    }

    /// The number of positions at which this guess and `other` hold the same
    /// letter.
    #[allow(unused_variables)]
    pub fn num_of_common_letters(&self, other: &Guess) -> (num: usize)
        ensures
            num == common_letters(self@.word, other@.word),
    {
        broadcast use vstd::string::group_string_axioms;

        let ghost a = self.word@;
        let ghost b = other.word@;
        // The bytes are borrowed for the proof alone: a word has no more
        // letters than bytes, and no slice is longer than `usize::MAX`.
        let bytes = self.word.as_str().as_bytes();
        proof {
            lemma_chars_fit_in_bytes(a);
            assert(bytes@.len() == vstd::slice::spec_slice_len(bytes));
        }
        let mut letters = self.word.as_str().chars();
        let mut other_letters = other.word.as_str().chars();
        let ghost mut seen: nat = 0;
        let mut num: usize = 0;
        loop
            invariant_except_break
                letters.remaining() == a.skip(seen as int),
                other_letters.remaining() == b.skip(seen as int),
                letters.decrease() is Some,
            invariant
                seen <= a.len() <= usize::MAX,
                seen <= b.len(),
                num == matches_within(a, b, seen),
                num <= seen,
            ensures
                seen == shorter_len(a, b),
                num == matches_within(a, b, seen),
            decreases letters.decrease()->0,
        {
            match (letters.next(), other_letters.next()) {
                (Some(letter), Some(other_letter)) => {
                    if letter == other_letter {
                        num += 1;
                    }
                    proof {
                        seen = seen + 1;
                    }
                },
                _ => {
                    break ;
                },
            }
        }
        num
    }
}

} // verus!
