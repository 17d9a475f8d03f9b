use rewordle::score::{get_letter_status, wordle_highlight};

fn word(s: &str) -> Vec<char> {
    s.chars().collect()
}

#[test]
fn score_has_five_entries() {
    let r = wordle_highlight(&word("AAAAA"), &word("BCDEF"));
    assert_eq!(r.len(), 5);
}

#[test]
fn identity_scores_all_exact() {
    let r = wordle_highlight(&word("CRANE"), &word("CRANE"));
    assert_eq!(r, vec![2, 2, 2, 2, 2]);
}

#[test]
fn disjoint_scores_all_absent() {
    let r = wordle_highlight(&word("FGHIJ"), &word("ABCDE"));
    assert_eq!(r, vec![0, 0, 0, 0, 0]);
}

#[test]
fn exact_match_wins_over_duplicates() {
    // the only R of the answer is consumed by the exact match at position 0
    let r = wordle_highlight(&word("REROB"), &word("ROBIN"));
    assert_eq!(r, vec![2, 0, 0, 1, 1]);
}

#[test]
fn duplicates_consume_left_to_right() {
    let r = wordle_highlight(&word("PAPER"), &word("APPLE"));
    assert_eq!(r, vec![1, 1, 2, 1, 0]);
}

#[test]
fn both_duplicates_score_while_occurrences_remain() {
    // the answer holds two unmatched Ls, so both guessed Ls score
    let r = wordle_highlight(&word("LLAMA"), &word("HELLO"));
    assert_eq!(r, vec![1, 1, 0, 0, 0]);
}

#[test]
fn excess_duplicates_score_absent() {
    // the answer holds a single L: the first guessed L consumes it and the
    // second is capped to absent
    let r = wordle_highlight(&word("LLAMA"), &word("SOLID"));
    assert_eq!(r, vec![1, 0, 0, 0, 0]);
}

#[test]
fn duplicate_cap_counts_min_of_occurrences() {
    // three Es guessed against two Es in the answer: exactly two score
    let r = wordle_highlight(&word("EEEXY"), &word("EBBBE"));
    assert_eq!(r, vec![2, 1, 0, 0, 0]);
    let scored = r.iter().filter(|&&v| v > 0).count();
    assert_eq!(scored, 2);
}

#[test]
fn exists_goes_to_the_leftmost_duplicate() {
    // one unmatched E in the answer, two non-exact Es in the guess: the
    // earlier one takes the EXISTS
    let r = wordle_highlight(&word("EXXXE"), &word("BEBBB"));
    assert_eq!(r, vec![1, 0, 0, 0, 0]);
}

#[test]
fn spaces_score_absent() {
    let r = wordle_highlight(&word("AB   "), &word("ABCDE"));
    assert_eq!(r, vec![2, 2, 0, 0, 0]);
}

#[test]
fn letter_status_reads_one_position() {
    assert_eq!(get_letter_status(0, &word("REROB"), &word("ROBIN")), 2);
    assert_eq!(get_letter_status(1, &word("REROB"), &word("ROBIN")), 0);
    assert_eq!(get_letter_status(3, &word("REROB"), &word("ROBIN")), 1);
    assert_eq!(get_letter_status(9, &word("REROB"), &word("ROBIN")), 0);
}
