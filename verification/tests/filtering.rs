use guess_filter::filter::{agrees_with_all, clues};
use guess_filter::{filter_guesses, solve, Error, Guess, UnequalLengthsError};

fn candidate(word: &str) -> Guess {
    Guess::new(word.to_string())
}

fn clue(word: &str, count: usize) -> Guess {
    Guess::new_with_count(word.to_string(), count)
}

#[test]
fn a_clue_with_too_low_a_count_filters_the_candidate_out() {
    assert_eq!(solve("apple\nangle 2\n"), Ok(vec![]));
    assert_eq!(filter_guesses(&vec![candidate("apple"), clue("angle", 2)]), Vec::<String>::new());
    assert_eq!(solve("apple\nangle 3\n"), Ok(vec!["apple".to_string()]));
}

#[test]
fn a_clue_with_the_right_count_keeps_the_candidate() {
    assert_eq!(solve("apple\napply 4\n"), Ok(vec!["apple".to_string()]));
    assert_eq!(filter_guesses(&vec![candidate("apple"), clue("apply", 4)]), vec!["apple"]);
}

#[test]
fn a_clue_of_zero_keeps_a_word_that_shares_no_position() {
    assert_eq!(solve("cat\ndog 0\n"), Ok(vec!["cat".to_string()]));
}

#[test]
fn an_empty_result_is_no_error() {
    assert_eq!(solve("cat\ndog 2\n"), Ok(vec![]));
}

#[test]
fn unequal_lengths_fail() {
    assert_eq!(solve("ab\nabc 1"), Err(Error::UnequalLengths(UnequalLengthsError {})));
}

#[test]
fn a_line_of_digits_fails() {
    match solve("123") {
        Err(Error::ParseGuess(error)) => {
            assert_eq!(error.line(), "123");
            assert_eq!(error.detail(), "wrong guess format");
        }
        other => panic!("expected a parse error, got {:?}", other),
    }
}

#[test]
fn without_clues_every_candidate_is_kept_in_order() {
    assert_eq!(
        solve("pear\nplum\nkiwi\nlime\npear\n"),
        Ok(vec![
            "pear".to_string(),
            "plum".to_string(),
            "kiwi".to_string(),
            "lime".to_string(),
            "pear".to_string()
        ])
    );
}

#[test]
fn a_candidate_must_agree_with_every_clue() {
    let text = "angle 3\napple\nample\nankle\napply 4\nangel\n";
    assert_eq!(solve(text), Ok(vec!["apple".to_string()]));
    let text = "angle 3\napple\nample\nankle\nangel\n";
    assert_eq!(
        solve(text),
        Ok(vec!["apple".to_string(), "ample".to_string(), "angel".to_string()])
    );
}

#[test]
fn clues_and_candidates_may_come_in_any_order() {
    let first = solve("dog 1\ncat\ndot\ncog 2\nfog\n");
    let second = solve("cat\ndot\nfog\ncog 2\ndog 1\n");
    assert_eq!(first, Ok(vec![]));
    assert_eq!(first, second);
    let first = solve("dog 2\ndot\nfog\ncat\nfig 0\n");
    let second = solve("dot\nfig 0\nfog\ndog 2\ncat\n");
    assert_eq!(first, Ok(vec!["dot".to_string()]));
    assert_eq!(first, second);
}

#[test]
fn a_clue_is_never_part_of_the_result() {
    assert_eq!(solve("cat 3\ncat 3\n"), Ok(vec![]));
    assert_eq!(solve("cat 3\ncat\n"), Ok(vec!["cat".to_string()]));
}

#[test]
fn an_impossible_clue_empties_the_result() {
    assert_eq!(
        filter_guesses(&vec![candidate("cat"), candidate("dog"), clue("cot", 4), candidate("cot")]),
        Vec::<String>::new()
    );
    assert_eq!(solve("cat\ncot\ndog\nxyz 1\n"), Ok(vec![]));
}

#[test]
fn a_clue_with_a_full_count_keeps_only_its_own_word() {
    assert_eq!(
        solve("apple\nangle\nangle 5\nample\nangle\n"),
        Ok(vec!["angle".to_string(), "angle".to_string()])
    );
    assert_eq!(solve("apple\nangle 5\nample\n"), Ok(vec![]));
}

#[test]
fn filtering_the_result_again_changes_nothing() {
    let clues = vec![clue("angle", 3), clue("amble", 3)];
    let mut guesses = clues.clone();
    for word in ["apple", "ample", "ankle", "angel", "addle", "eagle", "apple"] {
        guesses.push(candidate(word));
    }
    let once = filter_guesses(&guesses);
    assert_eq!(once, vec!["apple", "addle", "apple"]);
    let mut again = clues;
    for word in &once {
        again.push(candidate(word));
    }
    assert_eq!(filter_guesses(&again), once);
}

#[test]
fn an_empty_list_gives_an_empty_result() {
    assert_eq!(filter_guesses(&vec![]), Vec::<String>::new());
    assert_eq!(filter_guesses(&vec![clue("cat", 1)]), Vec::<String>::new());
}

#[test]
fn the_number_after_the_word_is_what_the_clue_declares() {
    assert_eq!(solve("cat\ncot1\n"), Ok(vec![]));
    assert_eq!(solve("cat\ncot2\n"), Ok(vec!["cat".to_string()]));
    assert_eq!(solve("cat\ncot 2 1\n"), Ok(vec!["cat".to_string()]));
}

#[test]
fn the_clues_are_the_guesses_with_a_count() {
    let guesses = vec![candidate("cat"), clue("cot", 2), candidate("dog"), clue("dot", 0)];
    assert_eq!(clues(&guesses), vec![&guesses[1], &guesses[3]]);
    assert_eq!(clues(&vec![candidate("cat")]), Vec::<&Guess>::new());
    assert_eq!(clues(&vec![]), Vec::<&Guess>::new());
}

#[test]
fn a_word_agrees_with_all_clues_or_fails_on_one() {
    let cot = clue("cot", 2);
    let dot = clue("dot", 0);
    let dog = candidate("dog");
    assert!(agrees_with_all(&candidate("cat"), &vec![&cot]));
    assert!(agrees_with_all(&candidate("cat"), &vec![&cot, &dog]));
    assert!(!agrees_with_all(&candidate("cat"), &vec![&cot, &dot]));
    assert!(!agrees_with_all(&candidate("cat"), &vec![&dot, &cot]));
    assert!(agrees_with_all(&candidate("pig"), &vec![&dot]));
    assert!(agrees_with_all(&candidate("cat"), &vec![]));
    assert!(agrees_with_all(&clue("cat", 0), &vec![&cot]));
}
