//! Positional matches between two words.

use vstd::prelude::*;

verus! {

/// How many of the first `n` positions hold the same letter in `a` and in `b`.
pub open spec fn matches_within(a: Seq<char>, b: Seq<char>, n: nat) -> nat
    recommends
        n <= a.len(),
        n <= b.len(),
    decreases n,
{
    if n == 0 {
        0
    } else {
        matches_within(a, b, (n - 1) as nat) + if a[n - 1] == b[n - 1] {
            1nat
        } else {
            0nat
        }
    }
}

/// The length of the shorter of two words.
pub open spec fn shorter_len(a: Seq<char>, b: Seq<char>) -> nat {
    if a.len() <= b.len() {
        a.len()
    } else {
        b.len()
    }
}

/// The positional-match count of two words: the number of positions at which
/// both hold the same letter. Where one word is longer, the positions that
/// only it has match nothing.
pub open spec fn common_letters(a: Seq<char>, b: Seq<char>) -> nat {
    matches_within(a, b, shorter_len(a, b))
}

/// The positions below `n` at which `a` and `b` hold the same letter.
pub open spec fn matching_positions(a: Seq<char>, b: Seq<char>, n: nat) -> Set<int> {
    Set::new(|i: int| 0 <= i < n && a[i] == b[i])
}

/// No more positions match than were looked at.
pub proof fn lemma_matches_within_bound(a: Seq<char>, b: Seq<char>, n: nat)
    ensures
        matches_within(a, b, n) <= n,
    decreases n,
{
    if n > 0 {
        lemma_matches_within_bound(a, b, (n - 1) as nat);
    }
}

/// The positional-match count never exceeds the length of either word.
pub proof fn lemma_common_letters_bound(a: Seq<char>, b: Seq<char>)
    ensures
        common_letters(a, b) <= a.len(),
        common_letters(a, b) <= b.len(),
{
    lemma_matches_within_bound(a, b, shorter_len(a, b));
}

/// Counting matches does not depend on which word is named first.
pub proof fn lemma_matches_within_symmetric(a: Seq<char>, b: Seq<char>, n: nat)
    ensures
        matches_within(a, b, n) == matches_within(b, a, n),
    decreases n,
{
    if n > 0 {
        lemma_matches_within_symmetric(a, b, (n - 1) as nat);
    }
}

/// The positional-match count is symmetric: it is the same for `a` against
/// `b` as for `b` against `a`.
pub proof fn lemma_common_letters_symmetric(a: Seq<char>, b: Seq<char>)
    ensures
        common_letters(a, b) == common_letters(b, a),
{
    lemma_matches_within_symmetric(a, b, shorter_len(a, b));
}

/// `matches_within` is the size of the set of matching positions.
pub proof fn lemma_matches_within_counts_positions(a: Seq<char>, b: Seq<char>, n: nat)
    ensures
        matching_positions(a, b, n).finite(),
        matching_positions(a, b, n).len() == matches_within(a, b, n),
    decreases n,
{
    if n == 0 {
        assert(matching_positions(a, b, n) =~= Set::<int>::empty());
    } else {
        let before = matching_positions(a, b, (n - 1) as nat);
        lemma_matches_within_counts_positions(a, b, (n - 1) as nat);
        if a[n - 1] == b[n - 1] {
            assert(matching_positions(a, b, n) =~= before.insert(n - 1));
        } else {
            assert(matching_positions(a, b, n) =~= before);
        }
    }
}

/// The positional-match count is the number of positions, present in both
/// words, at which the two hold the same letter.
pub proof fn lemma_common_letters_counts_positions(a: Seq<char>, b: Seq<char>)
    ensures
        matching_positions(a, b, shorter_len(a, b)).finite(),
        common_letters(a, b) == matching_positions(a, b, shorter_len(a, b)).len(),
{
    lemma_matches_within_counts_positions(a, b, shorter_len(a, b));
}

/// All of the first `n` positions match exactly when the two words agree on
/// each of them.
pub proof fn lemma_all_match_iff_agree(a: Seq<char>, b: Seq<char>, n: nat)
    ensures
        matches_within(a, b, n) == n <==> (forall|i: int| 0 <= i < n ==> a[i] == b[i]),
    decreases n,
{
    if n > 0 {
        lemma_all_match_iff_agree(a, b, (n - 1) as nat);
        lemma_matches_within_bound(a, b, (n - 1) as nat);
    }
}

/// Two words of one length match at every position exactly when they are the
/// same word.
pub proof fn lemma_full_match_iff_equal(a: Seq<char>, b: Seq<char>)
    requires
        a.len() == b.len(),
    ensures
        common_letters(a, b) == a.len() <==> a == b,
{
    lemma_all_match_iff_agree(a, b, a.len());
    if common_letters(a, b) == a.len() {
        assert(a =~= b);
    }
}

} // verus!
