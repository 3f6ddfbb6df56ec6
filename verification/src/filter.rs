//! Keeping the candidates that are consistent with every clue.

use crate::guess::{Guess, GuessView};
use crate::loader::same_lengths;
use crate::matching::{common_letters, lemma_common_letters_bound, lemma_full_match_iff_equal};
use vstd::prelude::*;

verus! {

/// Whether `word` matches `guess` as often as `guess` declares. Every word
/// agrees with a guess that declares nothing.
pub open spec fn agrees_with(word: Seq<char>, guess: GuessView) -> bool {
    guess.count matches Some(count) ==> common_letters(guess.word, word) == count
}

/// Whether `word` agrees with every clue among `guesses`.
pub open spec fn is_consistent(word: Seq<char>, guesses: Seq<GuessView>) -> bool {
    forall|i: int| 0 <= i < guesses.len() ==> agrees_with(word, #[trigger] guesses[i])
}

/// Whether `guess` is a candidate that agrees with every clue among
/// `guesses`.
pub open spec fn is_kept(guess: GuessView, guesses: Seq<GuessView>) -> bool {
    guess.is_candidate() && is_consistent(guess.word, guesses)
}

/// The words of the candidates among `guesses` that agree with every clue
/// among `guesses`, in the order of the candidates.
pub open spec fn consistent_words(guesses: Seq<GuessView>) -> Seq<Seq<char>> {
    guesses.filter(|guess: GuessView| is_kept(guess, guesses)).map_values(
        |guess: GuessView| guess.word,
    )
}

/// The clues among `guesses`, in their order.
pub open spec fn clues_of(guesses: Seq<GuessView>) -> Seq<GuessView> {
    guesses.filter(|guess: GuessView| guess.is_clue())
}

/// The candidates that have the given words.
pub open spec fn as_candidates(words: Seq<Seq<char>>) -> Seq<GuessView> {
    words.map_values(|word: Seq<char>| GuessView { word, count: None })
}

/// Whether a word agrees with every clue of a list rests on its clues alone.
pub proof fn lemma_clues_decide(word: Seq<char>, guesses: Seq<GuessView>)
    ensures
        is_consistent(word, clues_of(guesses)) == is_consistent(word, guesses),
{
    let is_clue = |guess: GuessView| guess.is_clue();
    let clues = clues_of(guesses);
    if is_consistent(word, guesses) {
        assert forall|i: int| 0 <= i < clues.len() implies agrees_with(
            word,
            #[trigger] clues[i],
        ) by {
            guesses.lemma_filter_contains_rev(is_clue, clues[i]);
        }
    }
    if is_consistent(word, clues) {
        assert forall|j: int| 0 <= j < guesses.len() implies agrees_with(
            word,
            #[trigger] guesses[j],
        ) by {
            if guesses[j].is_clue() {
                guesses.lemma_filter_contains(is_clue, j);
            }
        }
    }
}

/// Whether a word agrees with every clue of a list depends neither on the
/// order of the guesses nor on how often one of them occurs.
pub proof fn lemma_consistency_ignores_order(
    word: Seq<char>,
    guesses: Seq<GuessView>,
    others: Seq<GuessView>,
)
    requires
        forall|guess: GuessView| guesses.contains(guess) <==> others.contains(guess),
    ensures
        is_consistent(word, guesses) == is_consistent(word, others),
{
    if is_consistent(word, guesses) {
        assert forall|i: int| 0 <= i < others.len() implies agrees_with(
            word,
            #[trigger] others[i],
        ) by {
            assert(guesses.contains(others[i]));
        }
    }
    if is_consistent(word, others) {
        assert forall|i: int| 0 <= i < guesses.len() implies agrees_with(
            word,
            #[trigger] guesses[i],
        ) by {
            assert(others.contains(guesses[i]));
        }
    }
}

/// The clues among `guesses`, in their order.
pub fn clues(guesses: &Vec<Guess>) -> (found: Vec<&Guess>)
    ensures
        found.deep_view() == clues_of(guesses.deep_view()),
{
    let ghost all = guesses.deep_view();
    let ghost is_clue = |guess: GuessView| guess.is_clue();
    let mut found: Vec<&Guess> = Vec::new();
    proof {
        reveal(Seq::filter);
    }
    let mut i: usize = 0;
    while i < guesses.len()
        invariant
            all == guesses.deep_view(),
            is_clue == |guess: GuessView| guess.is_clue(),
            0 <= i <= guesses.len(),
            found.deep_view() == all.take(i as int).filter(is_clue),
        decreases guesses.len() - i,
    {
        let guess = &guesses[i];
        proof {
            assert(all.take(i + 1) =~= all.take(i as int).push(guess@));
            all.take(i as int).lemma_filter_push(guess@, is_clue);
        }
        if guess.count().is_some() {
            found.push(guess);
        }
        i += 1;
    }
    assert(all.take(i as int) =~= all);
    found
}

/// Whether `candidate` agrees with every clue among `clues`.
pub fn agrees_with_all(candidate: &Guess, clues: &Vec<&Guess>) -> (consistent: bool)
    ensures
        consistent == is_consistent(candidate@.word, clues.deep_view()),
{
    let ghost all = clues.deep_view();
    let mut i: usize = 0;
    while i < clues.len()
        invariant
            all == clues.deep_view(),
            0 <= i <= clues.len(),
            forall|j: int| 0 <= j < i ==> agrees_with(candidate@.word, #[trigger] all[j]),
        decreases clues.len() - i,
    {
        let clue = clues[i];
        assert(clue@ == all[i as int]);
        if let Some(count) = clue.count() {
            if clue.num_of_common_letters(candidate) != count {
                return false;
            }
        }
        i += 1;
    }
    true
}

/// The words of the candidates that agree with every clue, in the order of
/// the candidates.
pub fn filter_guesses(guesses: &Vec<Guess>) -> (words: Vec<String>)
    ensures
        words.deep_view() == consistent_words(guesses.deep_view()),
{
    let ghost all = guesses.deep_view();
    let ghost kept = |guess: GuessView| is_kept(guess, all);
    let ghost word_of = |guess: GuessView| guess.word;
    let clues = clues(guesses);
    let mut words: Vec<String> = Vec::new();
    proof {
        reveal(Seq::filter);
    }
    let mut i: usize = 0;
    while i < guesses.len()
        invariant
            all == guesses.deep_view(),
            clues.deep_view() == clues_of(all),
            kept == |guess: GuessView| is_kept(guess, all),
            word_of == |guess: GuessView| guess.word,
            0 <= i <= guesses.len(),
            words.deep_view() == all.take(i as int).filter(kept).map_values(word_of),
        decreases guesses.len() - i,
    {
        let guess = &guesses[i];
        let ghost earlier = all.take(i as int);
        proof {
            assert(all.take(i + 1) =~= earlier.push(guess@));
            earlier.lemma_filter_push(guess@, kept);
            lemma_clues_decide(guess@.word, all);
        }
        if guess.count().is_none() && agrees_with_all(guess, &clues) {
            words.push(guess.word().clone());
            proof {
                earlier.filter(kept).lemma_push_map_commute(word_of, guess@);
            }
        }
        i += 1;
    }
    assert(all.take(i as int) =~= all);
    words
}

/// A filter that every item passes changes nothing.
proof fn lemma_filter_keeps_all<A>(items: Seq<A>, pred: spec_fn(A) -> bool)
    requires
        forall|i: int| 0 <= i < items.len() ==> pred(#[trigger] items[i]),
    ensures
        items.filter(pred) == items,
    decreases items.len(),
{
    reveal(Seq::filter);
    if items.len() > 0 {
        lemma_filter_keeps_all(items.drop_last(), pred);
    }
}

/// A filter that no item passes leaves nothing.
proof fn lemma_filter_keeps_none<A>(items: Seq<A>, pred: spec_fn(A) -> bool)
    requires
        forall|i: int| 0 <= i < items.len() ==> !pred(#[trigger] items[i]),
    ensures
        items.filter(pred) == Seq::<A>::empty(),
    decreases items.len(),
{
    reveal(Seq::filter);
    if items.len() > 0 {
        lemma_filter_keeps_none(items.drop_last(), pred);
    }
}

/// Every word of the result is the word of a candidate, and agrees with
/// every clue.
pub proof fn lemma_consistent_words_are_kept(guesses: Seq<GuessView>, i: int)
    requires
        0 <= i < consistent_words(guesses).len(),
    ensures
        is_consistent(consistent_words(guesses)[i], guesses),
        exists|j: int|
            0 <= j < guesses.len() && (#[trigger] guesses[j]).is_candidate() && guesses[j].word
                == consistent_words(guesses)[i],
{
    let kept = |guess: GuessView| is_kept(guess, guesses);
    let passed = guesses.filter(kept);
    guesses.lemma_filter_pred(kept, i);
    guesses.lemma_filter_contains_rev(kept, passed[i]);
    let j = choose|j: int| 0 <= j < guesses.len() && guesses[j] == passed[i];
    assert(guesses[j].is_candidate() && guesses[j].word == consistent_words(guesses)[i]);
}

/// Without clues every candidate is kept: the result holds the words of all
/// the guesses, in their order.
pub proof fn lemma_no_clues_keeps_all(guesses: Seq<GuessView>)
    requires
        forall|i: int| 0 <= i < guesses.len() ==> (#[trigger] guesses[i]).is_candidate(),
    ensures
        consistent_words(guesses) == guesses.map_values(|guess: GuessView| guess.word),
{
    let kept = |guess: GuessView| is_kept(guess, guesses);
    assert(forall|i: int| 0 <= i < guesses.len() ==> kept(#[trigger] guesses[i]));
    lemma_filter_keeps_all(guesses, kept);
}

/// A clue that no candidate agrees with leaves the result empty.
pub proof fn lemma_unmatched_clue_keeps_none(guesses: Seq<GuessView>, clue: int)
    requires
        0 <= clue < guesses.len(),
        forall|i: int|
            0 <= i < guesses.len() && (#[trigger] guesses[i]).is_candidate() ==> !agrees_with(
                guesses[i].word,
                guesses[clue],
            ),
    ensures
        consistent_words(guesses) == Seq::<Seq<char>>::empty(),
{
    let kept = |guess: GuessView| is_kept(guess, guesses);
    assert(forall|i: int| 0 <= i < guesses.len() ==> !kept(#[trigger] guesses[i]));
    lemma_filter_keeps_none(guesses, kept);
}

/// A clue that declares more matches than its word has letters leaves the
/// result empty: no word can match it that often.
pub proof fn lemma_count_beyond_word_keeps_none(guesses: Seq<GuessView>, clue: int)
    requires
        0 <= clue < guesses.len(),
        guesses[clue].count matches Some(count) && count > guesses[clue].word.len(),
    ensures
        consistent_words(guesses) == Seq::<Seq<char>>::empty(),
{
    assert forall|i: int|
        0 <= i < guesses.len() && (#[trigger] guesses[i]).is_candidate() implies !agrees_with(
        guesses[i].word,
        guesses[clue],
    ) by {
        lemma_common_letters_bound(guesses[clue].word, guesses[i].word);
    }
    lemma_unmatched_clue_keeps_none(guesses, clue);
}

/// Filtering is idempotent: the clues of a list, together with the words that
/// the filter kept as the only candidates, give the same words again.
pub proof fn lemma_filter_is_idempotent(guesses: Seq<GuessView>)
    ensures
        consistent_words(clues_of(guesses) + as_candidates(consistent_words(guesses)))
            == consistent_words(guesses),
{
    let words = consistent_words(guesses);
    let clues = clues_of(guesses);
    let candidates = as_candidates(words);
    let again = clues + candidates;
    let is_clue = |guess: GuessView| guess.is_clue();
    let kept = |guess: GuessView| is_kept(guess, again);
    let word_of = |guess: GuessView| guess.word;
    assert forall|i: int| 0 <= i < clues.len() implies !kept(#[trigger] clues[i]) by {
        guesses.lemma_filter_pred(is_clue, i);
    }
    lemma_filter_keeps_none(clues, kept);
    assert forall|i: int| 0 <= i < candidates.len() implies kept(#[trigger] candidates[i]) by {
        let word = words[i];
        lemma_consistent_words_are_kept(guesses, i);
        lemma_clues_decide(word, guesses);
        assert(forall|k: int| 0 <= k < again.len() ==> agrees_with(word, #[trigger] again[k]));
    }
    lemma_filter_keeps_all(candidates, kept);
    Seq::filter_distributes_over_add(clues, candidates, kept);
}

/// A clue that declares as many matches as its word has letters keeps only
/// candidates with that very word, where all words are of one length.
pub proof fn lemma_full_count_keeps_only_the_clue_word(
    guesses: Seq<GuessView>,
    clue: int,
    i: int,
)
    requires
        same_lengths(guesses),
        0 <= clue < guesses.len(),
        guesses[clue].count == Some(guesses[clue].word.len()),
        0 <= i < consistent_words(guesses).len(),
    ensures
        consistent_words(guesses)[i] == guesses[clue].word,
{
    lemma_consistent_words_are_kept(guesses, i);
    let word = consistent_words(guesses)[i];
    let j = choose|j: int|
        0 <= j < guesses.len() && (#[trigger] guesses[j]).is_candidate() && guesses[j].word
            == word;
    lemma_full_match_iff_equal(guesses[clue].word, word);
}

} // verus!
