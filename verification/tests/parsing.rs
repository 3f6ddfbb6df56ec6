use guess_filter::{Error, Guess, LinePattern};

fn word_and_count(line: &str) -> (String, Option<usize>) {
    let guess = Guess::try_from(line).expect("the line should denote a guess");
    (guess.word().clone(), guess.count())
}

fn parse_error(line: &str) -> (String, String) {
    match Guess::try_from(line) {
        Err(Error::ParseGuess(error)) => (error.line().clone(), error.detail().clone()),
        other => panic!("expected a parse error, got {:?}", other),
    }
}

#[test]
fn a_bare_word_is_a_candidate() {
    assert_eq!(word_and_count("apple"), ("apple".to_string(), None));
    assert_eq!(Guess::try_from("apple"), Ok(Guess::new("apple".to_string())));
}

#[test]
fn a_word_with_a_number_is_a_clue() {
    assert_eq!(word_and_count("angle 2"), ("angle".to_string(), Some(2)));
    assert_eq!(
        Guess::try_from("angle 2"),
        Ok(Guess::new_with_count("angle".to_string(), 2))
    );
}

#[test]
fn the_blank_between_word_and_number_is_optional() {
    assert_eq!(word_and_count("cat3"), ("cat".to_string(), Some(3)));
    assert_eq!(word_and_count("cat 3"), word_and_count("cat3"));
}

#[test]
fn every_kind_of_blank_may_separate_word_and_number() {
    assert_eq!(word_and_count("cat \t\r\n\u{0B}\u{0C} 2"), ("cat".to_string(), Some(2)));
}

#[test]
fn a_no_break_space_is_no_blank() {
    assert_eq!(word_and_count("cat\u{A0}2"), ("cat".to_string(), None));
}

#[test]
fn what_follows_the_number_is_ignored() {
    assert_eq!(word_and_count("cat 3 and more"), ("cat".to_string(), Some(3)));
    assert_eq!(word_and_count("cat 2x9"), ("cat".to_string(), Some(2)));
}

#[test]
fn what_stands_before_the_word_is_ignored() {
    assert_eq!(word_and_count("12 ,;abc 3"), ("abc".to_string(), Some(3)));
    assert_eq!(word_and_count("   apple"), ("apple".to_string(), None));
}

#[test]
fn the_word_ends_at_the_first_character_that_is_no_letter() {
    assert_eq!(word_and_count("cat-dog 2"), ("cat".to_string(), None));
    assert_eq!(word_and_count("cat dog 2"), ("cat".to_string(), None));
    assert_eq!(word_and_count("x1y2"), ("x".to_string(), Some(1)));
}

#[test]
fn letters_are_ascii_letters_in_either_case() {
    assert_eq!(word_and_count("AzZa 4"), ("AzZa".to_string(), Some(4)));
    assert_eq!(word_and_count("\u{e9}lan 1"), ("lan".to_string(), Some(1)));
    assert_eq!(word_and_count("na\u{ef}ve 2"), ("na".to_string(), None));
}

#[test]
fn digits_are_ascii_digits() {
    assert_eq!(word_and_count("cat \u{663}"), ("cat".to_string(), None));
}

#[test]
fn a_count_may_be_zero_or_the_length_of_the_word() {
    assert_eq!(word_and_count("dog 0"), ("dog".to_string(), Some(0)));
    assert_eq!(word_and_count("dog 3"), ("dog".to_string(), Some(3)));
}

#[test]
fn leading_zeros_do_not_change_the_count() {
    assert_eq!(word_and_count("dog 0003"), ("dog".to_string(), Some(3)));
    assert_eq!(word_and_count("dog 000"), ("dog".to_string(), Some(0)));
}

#[test]
fn a_line_without_a_letter_is_of_the_wrong_format() {
    assert_eq!(parse_error("123"), ("123".to_string(), "wrong guess format".to_string()));
    assert_eq!(parse_error(""), ("".to_string(), "wrong guess format".to_string()));
    assert_eq!(parse_error(" \t 7 !"), (" \t 7 !".to_string(), "wrong guess format".to_string()));
    assert_eq!(parse_error("\u{e9}"), ("\u{e9}".to_string(), "wrong guess format".to_string()));
}

#[test]
fn a_count_beyond_the_word_is_refused() {
    assert_eq!(
        parse_error("dog 4"),
        ("dog 4".to_string(), "count is longer than the word".to_string())
    );
    assert_eq!(
        parse_error("a 10"),
        ("a 10".to_string(), "count is longer than the word".to_string())
    );
}

#[test]
fn a_count_too_large_for_the_machine_is_refused() {
    let line = "dog 340282366920938463463374607431768211456000";
    assert_eq!(
        parse_error(line),
        (line.to_string(), "count is longer than the word".to_string())
    );
    let line = "dog 18446744073709551616";
    assert_eq!(
        parse_error(line),
        (line.to_string(), "count is longer than the word".to_string())
    );
}

#[test]
fn one_pattern_reads_many_lines() {
    let pattern = LinePattern::new();
    assert_eq!(pattern.parse("apple"), Ok(Guess::new("apple".to_string())));
    assert_eq!(pattern.parse("apply 4"), Ok(Guess::new_with_count("apply".to_string(), 4)));
    assert!(pattern.parse("4").is_err());
    assert_eq!(pattern.parse("apple"), Guess::try_from("apple"));
}

#[test]
fn a_long_word_is_read_whole() {
    let word = "ab".repeat(500);
    let line = format!("{} 1000", word);
    assert_eq!(word_and_count(&line), (word.clone(), Some(1000)));
    let line = format!("{} 1001", word);
    assert_eq!(parse_error(&line).1, "count is longer than the word");
}

fn is_letter(c: char) -> bool {
    c.is_ascii_alphabetic()
}

fn is_blank(c: char) -> bool {
    matches!(c, '\t' | '\n' | '\u{0B}' | '\u{0C}' | '\r' | ' ')
}

fn is_digit(c: char) -> bool {
    c.is_ascii_digit()
}

fn run(chars: &[char], class: fn(char) -> bool) -> usize {
    chars.iter().take_while(|c| class(**c)).count()
}

fn expected_captures(line: &str) -> Option<(String, String)> {
    let chars: Vec<char> = line.chars().collect();
    let start = chars.iter().take_while(|c| !is_letter(**c)).count();
    if start == chars.len() {
        return None;
    }
    let from_word = &chars[start..];
    let word_len = run(from_word, is_letter);
    let after_word = &from_word[word_len..];
    let after_blanks = &after_word[run(after_word, is_blank)..];
    let digits_len = run(after_blanks, is_digit);
    Some((
        from_word[..word_len].iter().collect(),
        after_blanks[..digits_len].iter().collect(),
    ))
}

fn expected_guess(line: &str) -> Result<Guess, (String, String)> {
    match expected_captures(line) {
        None => Err((line.to_string(), "wrong guess format".to_string())),
        Some((word, digits)) if digits.is_empty() => Ok(Guess::new(word)),
        Some((word, digits)) => match digits.parse::<usize>() {
            Ok(count) if count <= word.chars().count() => Ok(Guess::new_with_count(word, count)),
            _ => Err((line.to_string(), "count is longer than the word".to_string())),
        },
    }
}

fn parsed(pattern: &LinePattern, line: &str) -> Result<Guess, (String, String)> {
    match pattern.parse(line) {
        Ok(guess) => Ok(guess),
        Err(Error::ParseGuess(error)) => Err((error.line().clone(), error.detail().clone())),
        Err(other) => panic!("expected a parse error, got {:?}", other),
    }
}

#[test]
fn every_short_line_is_read_by_the_longest_runs_from_the_first_letter() {
    let alphabet = ['a', 'Z', ' ', '\t', '2', '0', '-', '\u{e9}'];
    let pattern = LinePattern::new();
    let mut lines = vec![String::new()];
    assert_eq!(parsed(&pattern, ""), expected_guess(""));
    for _ in 0..5 {
        let mut longer = Vec::new();
        for line in &lines {
            for c in alphabet {
                let mut next = line.clone();
                next.push(c);
                longer.push(next);
            }
        }
        for line in &longer {
            assert_eq!(parsed(&pattern, line), expected_guess(line), "for {:?}", line);
        }
        lines = longer;
    }
}

#[test]
fn lines_with_rare_characters_are_read_alike() {
    let pattern = LinePattern::new();
    let lines = [
        "cat\u{0B}\u{0C}2",
        "cat\r\n2",
        "\u{1F600}cat\u{A0}2",
        "`cat{ 2",
        "@cat[ 2",
        "c\u{0301}at 1",
        "cat \u{FF11}",
        "cat\u{2003}2",
        "\u{0}a\u{0}1",
        "z:/9",
        "cat 12",
    ];
    for line in lines {
        assert_eq!(parsed(&pattern, line), expected_guess(line), "for {:?}", line);
    }
}
