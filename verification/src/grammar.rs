//! The grammar of a line: somewhere a word of letters, then blanks, then
//! digits that declare a count.

use crate::error::{ErrorView, ParseGuessErrorView, COUNT_TOO_LONG, WRONG_FORMAT};
use crate::guess::GuessView;
use vstd::prelude::*;

verus! {

/// The kinds of characters that the grammar tells apart.
pub enum CharClass {
    /// `A` to `Z` and `a` to `z`.
    Letter,
    /// Tab, line feed, vertical tab, form feed, carriage return and space.
    Blank,
    /// `0` to `9`.
    Digit,
    /// Every character but a letter.
    NoLetter,
}

/// Whether `c` is one of the letters `A` to `Z` and `a` to `z`.
pub open spec fn is_letter(c: char) -> bool {
    ('a' <= c && c <= 'z') || ('A' <= c && c <= 'Z')
}

impl CharClass {
    /// Whether `c` is of this class.
    pub open spec fn holds(self, c: char) -> bool {
        match self {
            CharClass::Letter => is_letter(c),
            CharClass::Blank => c == '\t' || c == '\n' || c == '\u{0B}' || c == '\u{0C}' || c
                == '\r' || c == ' ',
            CharClass::Digit => '0' <= c && c <= '9',
            CharClass::NoLetter => !is_letter(c),
        }
    }
}

/// Whether every character of `s` is of the class.
pub open spec fn all_of(s: Seq<char>, class: CharClass) -> bool {
    forall|i: int| 0 <= i < s.len() ==> class.holds(#[trigger] s[i])
}

/// The length of the longest prefix of `s` whose characters are all of the
/// class.
pub open spec fn run_len(s: Seq<char>, class: CharClass) -> nat
    decreases s.len(),
{
    if s.len() > 0 && class.holds(s[0]) {
        1 + run_len(s.drop_first(), class)
    } else {
        0
    }
}

/// The word and the digits that a line holds, or `None` for a line without a
/// letter. The word starts at the first letter of the line, after the longest
/// run of characters that are no letters, and is the longest run of letters
/// from there. The longest run of blanks after the word is passed
/// over. The digits are the longest run of digits after that, and may be
/// empty. What stands before the word and after the digits is not looked at.
pub open spec fn line_match(line: Seq<char>) -> Option<(Seq<char>, Seq<char>)> {
    let start = run_len(line, CharClass::NoLetter);
    if start == line.len() {
        None
    } else {
        let from_word = line.skip(start as int);
        let word_len = run_len(from_word, CharClass::Letter);
        let after_word = from_word.skip(word_len as int);
        let after_blanks = after_word.skip(run_len(after_word, CharClass::Blank) as int);
        let digits_len = run_len(after_blanks, CharClass::Digit);
        Some((from_word.take(word_len as int), after_blanks.take(digits_len as int)))
    }
}

/// The number that a digit stands for.
pub open spec fn digit_value(c: char) -> nat {
    (c as int - '0' as int) as nat
}

/// The number that a run of decimal digits denotes; 0 for the empty run.
pub open spec fn decimal_value(digits: Seq<char>) -> nat
    decreases digits.len(),
{
    if digits.len() == 0 {
        0
    } else {
        10 * decimal_value(digits.drop_last()) + digit_value(digits.last())
    }
}

/// A word as a line can hold it: one letter or more, and letters only.
pub open spec fn is_word(word: Seq<char>) -> bool {
    word.len() > 0 && all_of(word, CharClass::Letter)
}

impl GuessView {
    /// What holds of every guess that was read from a line: its word is made
    /// of letters, and its count, if it has one, does not exceed the length
    /// of the word.
    pub open spec fn well_formed(self) -> bool {
        &&& is_word(self.word)
        &&& self.count matches Some(count) ==> count <= self.word.len()
    }
}

/// The failure to read `line`, for the reason in `detail`.
pub open spec fn parse_failure(line: Seq<char>, detail: Seq<char>) -> ErrorView {
    ErrorView::ParseGuess(ParseGuessErrorView { line, detail })
}

/// The guess that a line denotes, or why it denotes none. A line without a
/// word is of the wrong format. A line without digits is a candidate. A line
/// with digits is a clue, unless they denote a number that exceeds the length
/// of the word.
pub open spec fn parse_line(line: Seq<char>) -> Result<GuessView, ErrorView> {
    match line_match(line) {
        None => Err(parse_failure(line, WRONG_FORMAT@)),
        Some((word, digits)) => {
            if digits.len() == 0 {
                Ok(GuessView { word, count: None })
            } else if decimal_value(digits) > word.len() {
                Err(parse_failure(line, COUNT_TOO_LONG@))
            } else {
                Ok(GuessView { word, count: Some(decimal_value(digits)) })
            }
        },
    }
}

/// A run is no longer than the text it is taken from, it holds characters of
/// its class only, and the character after it, if there is one, is not of
/// the class.
pub proof fn lemma_run_len(s: Seq<char>, class: CharClass)
    ensures
        run_len(s, class) <= s.len(),
        all_of(s.take(run_len(s, class) as int), class),
        run_len(s, class) < s.len() ==> !class.holds(s[run_len(s, class) as int]),
    decreases s.len(),
{
    if s.len() > 0 && class.holds(s[0]) {
        let rest = s.drop_first();
        lemma_run_len(rest, class);
        let n = run_len(rest, class) as int;
        assert forall|i: int| 0 <= i < n + 1 implies class.holds(#[trigger] s.take(n + 1)[i]) by {
            if i > 0 {
                assert(s.take(n + 1)[i] == rest.take(n)[i - 1]);
            }
        }
    }
}

/// A line has a match exactly when it holds a letter.
pub proof fn lemma_line_match_needs_letter(line: Seq<char>)
    ensures
        line_match(line) is Some <==> exists|i: int|
            0 <= i < line.len() && CharClass::Letter.holds(#[trigger] line[i]),
{
    lemma_run_len(line, CharClass::NoLetter);
    let start = run_len(line, CharClass::NoLetter) as int;
    if start == line.len() {
        assert(line.take(start) =~= line);
    }
}

/// What a line matches is a word, then digits only, and the word is no longer
/// than the line.
pub proof fn lemma_line_match_parts(line: Seq<char>)
    ensures
        line_match(line) matches Some((word, digits)) ==> {
            &&& is_word(word)
            &&& word.len() <= line.len()
            &&& all_of(digits, CharClass::Digit)
        },
{
    lemma_run_len(line, CharClass::NoLetter);
    let start = run_len(line, CharClass::NoLetter);
    if start < line.len() {
        let from_word = line.skip(start as int);
        lemma_run_len(from_word, CharClass::Letter);
        let word_len = run_len(from_word, CharClass::Letter);
        let after_word = from_word.skip(word_len as int);
        lemma_run_len(after_word, CharClass::Blank);
        let after_blanks = after_word.skip(run_len(after_word, CharClass::Blank) as int);
        lemma_run_len(after_blanks, CharClass::Digit);
    }
}

/// Where the parts of a match stand in their line. No letter stands before
/// the word, whose letters are followed by no further letter. The blanks that
/// follow the word reach up to the digits, and no digit follows the digits.
pub proof fn lemma_line_match_in_line(line: Seq<char>)
    ensures
        line_match(line) matches Some((word, digits)) ==> {
            let start = run_len(line, CharClass::NoLetter) as int;
            let word_end = start + word.len();
            let digits_start = word_end + run_len(line.skip(word_end), CharClass::Blank);
            let digits_end = digits_start + digits.len();
            &&& digits_end <= line.len()
            &&& word == line.subrange(start, word_end)
            &&& digits == line.subrange(digits_start, digits_end)
            &&& forall|i: int| 0 <= i < start ==> !CharClass::Letter.holds(#[trigger] line[i])
            &&& word_end < line.len() ==> !CharClass::Letter.holds(line[word_end])
            &&& forall|i: int|
                word_end <= i < digits_start ==> CharClass::Blank.holds(#[trigger] line[i])
            &&& digits_start < line.len() ==> !CharClass::Blank.holds(line[digits_start])
            &&& digits_end < line.len() ==> !CharClass::Digit.holds(line[digits_end])
        },
{
    lemma_run_len(line, CharClass::NoLetter);
    let start = run_len(line, CharClass::NoLetter) as int;
    if start < line.len() {
        assert forall|i: int| 0 <= i < start implies !CharClass::Letter.holds(
            #[trigger] line[i],
        ) by {
            assert(CharClass::NoLetter.holds(line.take(start)[i]));
        }
        let from_word = line.skip(start);
        lemma_run_len(from_word, CharClass::Letter);
        let word_len = run_len(from_word, CharClass::Letter) as int;
        let word_end = start + word_len;
        assert(from_word.take(word_len) =~= line.subrange(start, word_end));
        if word_end < line.len() {
            assert(from_word[word_len] == line[word_end]);
        }
        let after_word = from_word.skip(word_len);
        assert(after_word =~= line.skip(word_end));
        lemma_run_len(after_word, CharClass::Blank);
        let blanks = run_len(after_word, CharClass::Blank) as int;
        let digits_start = word_end + blanks;
        assert forall|i: int| word_end <= i < digits_start implies CharClass::Blank.holds(
            #[trigger] line[i],
        ) by {
            assert(after_word.take(blanks)[i - word_end] == line[i]);
        }
        if digits_start < line.len() {
            assert(after_word[blanks] == line[digits_start]);
        }
        let after_blanks = after_word.skip(blanks);
        lemma_run_len(after_blanks, CharClass::Digit);
        let digits_len = run_len(after_blanks, CharClass::Digit) as int;
        let digits_end = digits_start + digits_len;
        assert(after_blanks.take(digits_len) =~= line.subrange(digits_start, digits_end));
        if digits_end < line.len() {
            assert(after_blanks[digits_len] == line[digits_end]);
        }
    }
}

/// Every guess that a line denotes is well formed.
pub proof fn lemma_parse_line_well_formed(line: Seq<char>)
    ensures
        parse_line(line) matches Ok(guess) ==> guess.well_formed(),
{
    lemma_line_match_parts(line);
}

/// A longer run of digits denotes no smaller a number than its prefix.
pub proof fn lemma_decimal_value_grows(digits: Seq<char>, n: int)
    requires
        0 <= n <= digits.len(),
    ensures
        decimal_value(digits.take(n)) <= decimal_value(digits),
    decreases digits.len() - n,
{
    if n == digits.len() {
        assert(digits.take(n) =~= digits);
    } else {
        lemma_decimal_value_grows(digits.drop_last(), n);
        assert(digits.drop_last().take(n) =~= digits.take(n));
    }
}

} // verus!
