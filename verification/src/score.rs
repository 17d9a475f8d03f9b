//! The scorer: classifies each letter of a guess against the answer.
//!
//! Each position receives `EXACT` (2) when the guessed letter matches the
//! answer at that position, `EXISTS` (1) when the letter occurs elsewhere in
//! the answer and has unmatched occurrences left, and `ABSENT` (0) otherwise.
//! Duplicated letters in the guess receive `EXISTS` only up to the number of
//! unmatched occurrences in the answer, assigned left to right.

use vstd::prelude::*;

verus! {

pub const EXACT: u8 = 2;
pub const EXISTS: u8 = 1;
pub const ABSENT: u8 = 0;

/// A well-formed answer: five uppercase ASCII letters.
pub open spec fn wf_answer(a: Seq<char>) -> bool {
    a.len() == 5 && forall|j: int| 0 <= j < 5 ==> 'A' <= #[trigger] a[j] <= 'Z'
}

/// Number of positions `j < n` where the answer holds `c` and the guess does
/// not match the answer there: the occurrences of `c` still available for
/// `EXISTS` once exact matches are punched out.
pub open spec fn count_unmatched(g: Seq<char>, a: Seq<char>, c: char, n: int) -> int
    decreases n,
{
    if n <= 0 {
        0
    } else {
        count_unmatched(g, a, c, n - 1) + if a[n - 1] == c && g[n - 1] != a[n - 1] {
            1int
        } else {
            0int
        }
    }
}

/// Number of positions `j < n` where the guess holds `c` without matching the
/// answer there: the misses of `c` that come before position `n`.
pub open spec fn count_misses(g: Seq<char>, a: Seq<char>, c: char, n: int) -> int
    decreases n,
{
    if n <= 0 {
        0
    } else {
        count_misses(g, a, c, n - 1) + if g[n - 1] == c && g[n - 1] != a[n - 1] {
            1int
        } else {
            0int
        }
    }
}

/// The status of position `i`: exact matches win outright; otherwise the
/// letter scores `EXISTS` exactly when the misses of that letter to its left
/// have not yet consumed every unmatched occurrence in the answer.
pub open spec fn score_char(g: Seq<char>, a: Seq<char>, i: int) -> u8 {
    if g[i] == a[i] {
        EXACT
    } else if count_misses(g, a, g[i], i) < count_unmatched(g, a, g[i], 5) {
        EXISTS
    } else {
        ABSENT
    }
}

/// Number of positions `j < n` where `m` holds `c`.
pub open spec fn count_in(m: Seq<char>, c: char, n: int) -> int
    decreases n,
{
    if n <= 0 {
        0
    } else {
        count_in(m, c, n - 1) + if m[n - 1] == c {
            1int
        } else {
            0int
        }
    }
}

proof fn lemma_counts_nonneg(g: Seq<char>, a: Seq<char>, c: char, n: int)
    ensures
        count_unmatched(g, a, c, n) >= 0,
        count_misses(g, a, c, n) >= 0,
    decreases n,
{
    if n > 0 {
        lemma_counts_nonneg(g, a, c, n - 1);
    }
}

proof fn lemma_count_in_nonneg(m: Seq<char>, c: char, n: int)
    ensures
        count_in(m, c, n) >= 0,
    decreases n,
{
    if n > 0 {
        lemma_count_in_nonneg(m, c, n - 1);
    }
}

/// A position holding `c` below `n` forces a positive count.
proof fn lemma_count_in_positive(m: Seq<char>, c: char, n: int, k: int)
    requires
        0 <= k < n,
        m[k] == c,
    ensures
        count_in(m, c, n) >= 1,
    decreases n,
{
    lemma_count_in_nonneg(m, c, n - 1);
    if k < n - 1 {
        lemma_count_in_positive(m, c, n - 1, k);
    }
}

/// With no position holding `c`, the count is zero.
proof fn lemma_count_in_zero(m: Seq<char>, c: char, n: int)
    requires
        forall|j: int| 0 <= j < n ==> m[j] != c,
    ensures
        count_in(m, c, n) == 0,
    decreases n,
{
    if n > 0 {
        lemma_count_in_zero(m, c, n - 1);
    }
}

/// Updating one position changes the count of `c` only through the old and
/// new values at that position.
proof fn lemma_count_in_update(m: Seq<char>, c: char, n: int, k: int, v: char)
    requires
        0 <= k < m.len(),
        n <= m.len(),
    ensures
        count_in(m.update(k, v), c, n) == count_in(m, c, n) + if k < n {
            (if v == c { 1int } else { 0int }) - (if m[k] == c { 1int } else { 0int })
        } else {
            0int
        },
    decreases n,
{
    if n > 0 {
        lemma_count_in_update(m, c, n - 1, k, v);
    }
}

/// When the answer nowhere holds `c`, no occurrence of `c` is unmatched.
proof fn lemma_unmatched_absent(g: Seq<char>, a: Seq<char>, c: char, n: int)
    requires
        forall|j: int| 0 <= j < n ==> a[j] != c,
    ensures
        count_unmatched(g, a, c, n) == 0,
    decreases n,
{
    if n > 0 {
        lemma_unmatched_absent(g, a, c, n - 1);
    }
}

/// Finds the leftmost position of `c` in `m`, if any.
pub fn find_char(m: &Vec<char>, c: char) -> (r: Option<usize>)
    ensures
        match r {
            Some(k) => k < m@.len() && m@[k as int] == c && forall|j: int|
                0 <= j < k ==> m@[j] != c,
            None => forall|j: int| 0 <= j < m@.len() ==> m@[j] != c,
        },
{
    let mut i: usize = 0;
    while i < m.len()
        invariant
            i <= m@.len(),
            forall|j: int| 0 <= j < i ==> m@[j] != c,
        decreases m@.len() - i,
    {
        if m[i] == c {
            return Some(i);
        }
        i += 1;
    }
    None
}

/// Whether `v` holds `c` anywhere.
pub fn contains_char(v: &Vec<char>, c: char) -> (r: bool)
    ensures
        r == v@.contains(c),
{
    let mut i: usize = 0;
    while i < v.len()
        invariant
            i <= v@.len(),
            forall|j: int| 0 <= j < i ==> v@[j] != c,
        decreases v@.len() - i,
    {
        if v[i] == c {
            assert(v@[i as int] == c);
            return true;
        }
        i += 1;
    }
    false
}

/// Scores a five-letter guess against a five-letter uppercase answer, one
/// status per position.
///
/// The first pass punches exact matches out of a copy of the answer; the
/// second pass walks the guess left to right, consuming one remaining
/// occurrence for each `EXISTS`.
pub fn wordle_highlight(guess_arr: &Vec<char>, answer_arr: &Vec<char>) -> (result: Vec<u8>)
    requires
        guess_arr@.len() == 5,
        wf_answer(answer_arr@),
    ensures
        result@.len() == 5,
        forall|i: int| 0 <= i < 5 ==> result@[i] == score_char(guess_arr@, answer_arr@, i),
{
    let ghost g = guess_arr@;
    let ghost a = answer_arr@;

    let mut answer_map: Vec<char> = Vec::new();
    let mut j: usize = 0;
    while j < 5
        invariant
            j <= 5,
            guess_arr@ == g,
            answer_arr@ == a,
            g.len() == 5,
            wf_answer(a),
            answer_map@.len() == j,
            forall|k: int| 0 <= k < j ==> answer_map@[k] == if g[k] == a[k] {
                '-'
            } else {
                a[k]
            },
        decreases 5 - j,
    {
        if guess_arr[j] == answer_arr[j] {
            answer_map.push('-');
        } else {
            answer_map.push(answer_arr[j]);
        }
        j += 1;
    }

    proof {
        assert forall|c: char| c != '-' implies count_in(answer_map@, c, 5) == max_zero(
            count_unmatched(g, a, c, 5) - count_misses(g, a, c, 0),
        ) by {
            lemma_map_initial(answer_map@, g, a, c, 5);
            lemma_counts_nonneg(g, a, c, 5);
        }
    }

    let mut result: Vec<u8> = Vec::new();
    let mut i: usize = 0;
    while i < 5
        invariant
            i <= 5,
            guess_arr@ == g,
            answer_arr@ == a,
            g.len() == 5,
            wf_answer(a),
            answer_map@.len() == 5,
            result@.len() == i,
            forall|k: int| 0 <= k < 5 ==> answer_map@[k] == '-' || answer_map@[k] == a[k],
            forall|k: int| 0 <= k < 5 && g[k] == a[k] ==> answer_map@[k] == '-',
            forall|c: char|
                c != '-' ==> count_in(answer_map@, c, 5) == max_zero(
                    count_unmatched(g, a, c, 5) - count_misses(g, a, c, i as int),
                ),
            forall|k: int| 0 <= k < i ==> result@[k] == score_char(g, a, k),
        decreases 5 - i,
    {
        let c = guess_arr[i];
        proof {
            lemma_counts_nonneg(g, a, c, i as int);
            lemma_counts_nonneg(g, a, c, 5);
        }
        if guess_arr[i] == answer_arr[i] {
            result.push(EXACT);
            proof {
                lemma_misses_step(g, a, i as int);
            }
        } else if !contains_char(answer_arr, c) {
            proof {
                lemma_unmatched_absent(g, a, c, 5);
                lemma_misses_step(g, a, i as int);
            }
            result.push(ABSENT);
        } else {
            match find_char(&answer_map, c) {
                Some(pos) => {
                    proof {
                        // the letter is still available: its count is positive
                        assert('A' <= c <= 'Z');
                        lemma_count_in_positive(answer_map@, c, 5, pos as int);
                        lemma_misses_step(g, a, i as int);
                    }
                    result.push(EXISTS);
                    let ghost old_map = answer_map@;
                    answer_map.set(pos, '-');
                    proof {
                        assert(answer_map@ == old_map.update(pos as int, '-'));
                        assert forall|c2: char| c2 != '-' implies count_in(answer_map@, c2, 5)
                            == max_zero(
                            count_unmatched(g, a, c2, 5) - count_misses(g, a, c2, i + 1),
                        ) by {
                            lemma_count_in_update(old_map, c2, 5, pos as int, '-');
                            lemma_misses_step(g, a, i as int);
                            lemma_counts_nonneg(g, a, c2, i as int);
                        }
                    }
                },
                None => {
                    proof {
                        lemma_count_in_zero(answer_map@, c, 5);
                        lemma_misses_step(g, a, i as int);
                    }
                    result.push(ABSENT);
                },
            }
        }
        i += 1;
    }
    result
}

/// The nonnegative part of `x`.
pub open spec fn max_zero(x: int) -> int {
    if x >= 0 {
        x
    } else {
        0
    }
}

/// Before any guess position is processed, the punched answer copy holds each
/// letter exactly as often as that letter is unmatched.
proof fn lemma_map_initial(m: Seq<char>, g: Seq<char>, a: Seq<char>, c: char, n: int)
    requires
        c != '-',
        n <= m.len(),
        forall|k: int| 0 <= k < n ==> m[k] == if g[k] == a[k] {
            '-'
        } else {
            a[k]
        },
    ensures
        count_in(m, c, n) == count_unmatched(g, a, c, n),
    decreases n,
{
    if n > 0 {
        lemma_map_initial(m, g, a, c, n - 1);
    }
}

/// Unfolds the miss count by one position.
proof fn lemma_misses_step(g: Seq<char>, a: Seq<char>, i: int)
    requires
        i >= 0,
    ensures
        forall|c: char| #![auto]
            count_misses(g, a, c, i + 1) == count_misses(g, a, c, i) + if g[i] == c && g[i] != a[i] {
                1int
            } else {
                0int
            },
{
}

/// The status of one position of a guess, or `ABSENT` past the end.
pub fn get_letter_status(pos: usize, guess_arr: &Vec<char>, answer_arr: &Vec<char>) -> (r: u8)
    requires
        guess_arr@.len() == 5,
        wf_answer(answer_arr@),
    ensures
        r == if pos < 5 {
            score_char(guess_arr@, answer_arr@, pos as int)
        } else {
            ABSENT
        },
{
    let statuses = wordle_highlight(guess_arr, answer_arr);
    if pos < statuses.len() {
        statuses[pos]
    } else {
        ABSENT
    }
}

// ---------------------------------------------------------------------------
// Laws of the scorer.
// ---------------------------------------------------------------------------

/// An exact match always scores `EXACT`, at every position where guess and
/// answer agree.
pub proof fn lemma_exact_dominance(g: Seq<char>, a: Seq<char>, i: int)
    requires
        0 <= i < 5,
        g[i] == a[i],
    ensures
        score_char(g, a, i) == EXACT,
{
}

/// Scoring the answer against itself yields `EXACT` everywhere.
pub proof fn lemma_identity(a: Seq<char>)
    ensures
        forall|i: int| 0 <= i < 5 ==> score_char(a, a, i) == EXACT,
{
}

/// When no letter of the guess occurs in the answer, every position scores
/// `ABSENT`.
pub proof fn lemma_disjoint(g: Seq<char>, a: Seq<char>)
    requires
        g.len() == 5,
        a.len() == 5,
        forall|i: int, j: int| 0 <= i < 5 && 0 <= j < 5 ==> g[i] != a[j],
    ensures
        forall|i: int| 0 <= i < 5 ==> score_char(g, a, i) == ABSENT,
{
    assert forall|i: int| 0 <= i < 5 implies score_char(g, a, i) == ABSENT by {
        lemma_unmatched_absent(g, a, g[i], 5);
        lemma_counts_nonneg(g, a, g[i], i);
    }
}

/// Misses only accumulate from left to right.
proof fn lemma_misses_monotone(g: Seq<char>, a: Seq<char>, c: char, m: int, n: int)
    requires
        m <= n,
    ensures
        count_misses(g, a, c, m) <= count_misses(g, a, c, n),
    decreases n - m,
{
    if m < n {
        lemma_misses_monotone(g, a, c, m, n - 1);
    }
}

/// Among the non-exact positions holding one letter, `EXISTS` goes to the
/// leftmost ones first: a later `EXISTS` forces every earlier miss of the same
/// letter to be `EXISTS` as well.
pub proof fn lemma_tiebreak_left_to_right(g: Seq<char>, a: Seq<char>, i: int, j: int)
    requires
        0 <= j < i < 5,
        g[j] == g[i],
        g[j] != a[j],
        g[i] != a[i],
        score_char(g, a, i) == EXISTS,
    ensures
        score_char(g, a, j) == EXISTS,
{
    let c = g[i];
    lemma_misses_monotone(g, a, c, j + 1, i);
    assert(count_misses(g, a, c, j + 1) == count_misses(g, a, c, j) + 1);
}

/// Number of positions `j < n` where the guess holds `c` and scores `EXACT`
/// or `EXISTS`.
pub open spec fn count_scored(g: Seq<char>, a: Seq<char>, c: char, n: int) -> int
    decreases n,
{
    if n <= 0 {
        0
    } else {
        count_scored(g, a, c, n - 1) + if g[n - 1] == c && score_char(g, a, n - 1) != ABSENT {
            1int
        } else {
            0int
        }
    }
}

/// Number of positions `j < n` where the guess holds `c` and matches the
/// answer there.
pub open spec fn count_exact(g: Seq<char>, a: Seq<char>, c: char, n: int) -> int
    decreases n,
{
    if n <= 0 {
        0
    } else {
        count_exact(g, a, c, n - 1) + if g[n - 1] == c && g[n - 1] == a[n - 1] {
            1int
        } else {
            0int
        }
    }
}

/// Number of positions `j < n` where a sequence holds `c`.
pub open spec fn count_char(s: Seq<char>, c: char, n: int) -> int
    decreases n,
{
    if n <= 0 {
        0
    } else {
        count_char(s, c, n - 1) + if s[n - 1] == c {
            1int
        } else {
            0int
        }
    }
}

/// The smaller of two values.
pub open spec fn min_int(x: int, y: int) -> int {
    if x <= y {
        x
    } else {
        y
    }
}

/// Running form of the duplicate cap: below any prefix, the scored positions
/// of a letter are its exact matches plus as many of its misses as the answer
/// could still cover.
proof fn lemma_cap_prefix(g: Seq<char>, a: Seq<char>, c: char, n: int)
    requires
        0 <= n <= 5,
    ensures
        count_scored(g, a, c, n) == count_exact(g, a, c, n) + min_int(
            count_misses(g, a, c, n),
            count_unmatched(g, a, c, 5),
        ),
    decreases n,
{
    lemma_counts_nonneg(g, a, c, 5);
    if n > 0 {
        lemma_cap_prefix(g, a, c, n - 1);
        lemma_counts_nonneg(g, a, c, n - 1);
    }
}

/// The letter counts split into exact matches plus misses (for the guess) and
/// exact matches plus unmatched occurrences (for the answer).
proof fn lemma_count_split(g: Seq<char>, a: Seq<char>, c: char, n: int)
    ensures
        count_char(g, c, n) == count_exact(g, a, c, n) + count_misses(g, a, c, n),
        count_char(a, c, n) >= count_exact(g, a, c, n) + count_unmatched(g, a, c, n),
    decreases n,
{
    if n > 0 {
        lemma_count_split(g, a, c, n - 1);
    }
}

/// For an uppercase answer the split is tight: a position counts toward
/// `count_char(a, c)` exactly once, as an exact match or as unmatched.
proof fn lemma_count_split_exact(g: Seq<char>, a: Seq<char>, c: char, n: int)
    requires
        forall|j: int| 0 <= j < n ==> (a[j] == c ==> (g[j] == a[j] <==> g[j] == c)),
    ensures
        count_char(a, c, n) == count_exact(g, a, c, n) + count_unmatched(g, a, c, n),
    decreases n,
{
    if n > 0 {
        lemma_count_split_exact(g, a, c, n - 1);
    }
}

/// The duplicate cap: for every letter, the number of positions where the
/// guess holds it and scores `EXACT` or `EXISTS` equals the smaller of its
/// occurrence counts in guess and answer.
pub proof fn lemma_duplicate_cap(g: Seq<char>, a: Seq<char>, c: char)
    requires
        g.len() == 5,
        a.len() == 5,
    ensures
        count_scored(g, a, c, 5) == min_int(count_char(g, c, 5), count_char(a, c, 5)),
{
    lemma_cap_prefix(g, a, c, 5);
    lemma_count_split(g, a, c, 5);
    lemma_count_split_exact(g, a, c, 5);
    lemma_counts_nonneg(g, a, c, 5);
}

} // verus!
