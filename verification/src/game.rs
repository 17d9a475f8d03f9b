//! The game state store: the single mutable record holding the board, the
//! statistics and the lifecycle enums, with its mutators.
//!
//! Keystrokes reach the state through [`input_letter`]; an accepted word is
//! booked by [`commit_word`] once the reveal animation has run; [`new_game`]
//! resets the board for the next word. The word lists are plain data handed
//! in by the host.

use vstd::prelude::*;

use crate::score::wf_answer;

verus! {

#[derive(Clone, Copy, Debug, PartialEq, Eq, Structural)]
pub enum GameStatus {
    InPlay,
    Won,
    Lost,
}

#[derive(Clone, Copy, Debug, PartialEq, Eq, Structural)]
pub enum WordStatus {
    InPlay,
    Valid,
    Invalid,
}

pub struct AppState {
    pub app_x: u16,
    pub app_y: u16,
    pub game: GameStatus,
    /// Index of the next word in the play list.
    pub word_index: u32,
    /// The hidden answer: five uppercase letters.
    pub answer: Vec<char>,
    /// The board: six rows of five cells, `' '` for empty slots.
    pub status: Vec<Vec<char>>,
    /// The current attempt number, `0..=6`.
    pub in_play: usize,
    /// Letters of committed rows, deduplicated in first-seen order.
    pub used: Vec<char>,
    /// Wins per attempt in `results[0..6]`, losses in `results[6]`.
    pub results: Vec<u32>,
    /// `(current_streak, max_streak)`.
    pub streak: (u32, u32),
    pub exit_flag: bool,
    pub word_status: WordStatus,
}

/// The board rows as plain character sequences.
pub open spec fn board_views(s: AppState) -> Seq<Seq<char>> {
    s.status@.map_values(|r: Vec<char>| r@)
}

/// The word lists as plain character sequences.
pub open spec fn views(ws: Seq<Vec<char>>) -> Seq<Seq<char>> {
    ws.map_values(|w: Vec<char>| w@)
}

/// A well-formed word list: every entry is five uppercase letters.
pub open spec fn wf_words(ws: Seq<Seq<char>>) -> bool {
    forall|i: int| 0 <= i < ws.len() ==> wf_answer(#[trigger] ws[i])
}

/// Membership of a word in a list.
pub open spec fn word_in(ws: Seq<Seq<char>>, w: Seq<char>) -> bool {
    exists|i: int| 0 <= i < ws.len() && ws[i] == w
}

/// Every cell of a finalized row holds an uppercase letter.
pub open spec fn row_full(row: Seq<char>) -> bool {
    row.len() == 5 && forall|j: int| 0 <= j < 5 ==> 'A' <= #[trigger] row[j] <= 'Z'
}

/// Every cell of the row is blank.
pub open spec fn row_blank(row: Seq<char>) -> bool {
    row.len() == 5 && forall|j: int| 0 <= j < 5 ==> #[trigger] row[j] == ' '
}

/// The in-play row: uppercase letters followed by blanks.
pub open spec fn row_prefix(row: Seq<char>) -> bool {
    &&& row.len() == 5
    &&& forall|j: int| 0 <= j < 5 ==> #[trigger] row[j] == ' ' || 'A' <= row[j] <= 'Z'
    &&& forall|j: int, k: int| 0 <= j < k < 5 && #[trigger] row[j] == ' ' ==> #[trigger] row[k] == ' '
}

/// Number of filled cells of a prefix-shaped row below `n`.
pub open spec fn filled_below(row: Seq<char>, n: int) -> int
    decreases n,
{
    if n <= 0 {
        0
    } else {
        filled_below(row, n - 1) + if row[n - 1] != ' ' {
            1int
        } else {
            0int
        }
    }
}

/// A letter occurs somewhere on the board rows below `rows`.
pub open spec fn board_has_letter(s: AppState, c: char, rows: int) -> bool {
    exists|r: int, k: int| 0 <= r < rows && 0 <= k < 5 && board_views(s)[r][k] == c
}

/// The state invariant: board shape, lifecycle coupling, and the used-letter
/// set all in their lawful forms.
pub open spec fn wf(s: AppState) -> bool {
    &&& wf_answer(s.answer@)
    &&& s.status@.len() == 6
    &&& s.in_play <= 6
    &&& forall|r: int| 0 <= r < s.in_play ==> row_full(#[trigger] board_views(s)[r])
    &&& (s.in_play < 6 ==> row_prefix(board_views(s)[s.in_play as int]))
    &&& forall|r: int| s.in_play < r < 6 ==> row_blank(#[trigger] board_views(s)[r])
    &&& s.results@.len() == 7
    &&& (forall|i: int, j: int|
        0 <= i < j < s.used@.len() ==> #[trigger] s.used@[i] != #[trigger] s.used@[j])
    &&& (forall|c: char| s.used@.contains(c) <==> board_has_letter(s, c, s.in_play as int))
    &&& (s.word_status != WordStatus::InPlay ==> s.game == GameStatus::InPlay && s.in_play < 6
        && row_full(board_views(s)[s.in_play as int]))
    &&& (s.game == GameStatus::InPlay ==> s.in_play < 6)
    &&& s.app_x <= 0x7fd7
    &&& s.app_y <= 0x7ff3
}

/// The streak pair is ordered: the current run never exceeds the recorded
/// maximum.
pub open spec fn streak_ok(s: AppState) -> bool {
    s.streak.0 <= s.streak.1
}

/// Sum of the seven result counters below `n`.
pub open spec fn sum_results(rs: Seq<u32>, n: int) -> int
    decreases n,
{
    if n <= 0 {
        0
    } else {
        sum_results(rs, n - 1) + rs[n - 1]
    }
}

// ---------------------------------------------------------------------------
// Transition relations: each mutator's effect, stated over plain views.
// ---------------------------------------------------------------------------

/// Everything except the board, the used set and the lifecycle fields agrees.
pub open spec fn same_stats(s0: AppState, s1: AppState) -> bool {
    &&& s1.word_index == s0.word_index
    &&& s1.results@ == s0.results@
    &&& s1.streak == s0.streak
    &&& s1.exit_flag == s0.exit_flag
    &&& s1.app_x == s0.app_x
    &&& s1.app_y == s0.app_y
}

/// The two states are indistinguishable.
pub open spec fn same_state(s0: AppState, s1: AppState) -> bool {
    &&& same_stats(s0, s1)
    &&& s1.game == s0.game
    &&& s1.word_index == s0.word_index
    &&& s1.answer@ == s0.answer@
    &&& board_views(s1) == board_views(s0)
    &&& s1.in_play == s0.in_play
    &&& s1.used@ == s0.used@
    &&& s1.word_status == s0.word_status
}

/// Only the exit flag changed, and it is now raised.
pub open spec fn exit_raised(s0: AppState, s1: AppState) -> bool {
    &&& s1.game == s0.game
    &&& s1.word_index == s0.word_index
    &&& s1.answer@ == s0.answer@
    &&& board_views(s1) == board_views(s0)
    &&& s1.in_play == s0.in_play
    &&& s1.used@ == s0.used@
    &&& s1.results@ == s0.results@
    &&& s1.streak == s0.streak
    &&& s1.word_status == s0.word_status
    &&& s1.app_x == s0.app_x
    &&& s1.app_y == s0.app_y
    &&& s1.exit_flag
}

/// Only the word status changed.
pub open spec fn word_status_set(s0: AppState, s1: AppState, ws: WordStatus) -> bool {
    &&& same_stats(s0, s1)
    &&& s1.game == s0.game
    &&& s1.answer@ == s0.answer@
    &&& board_views(s1) == board_views(s0)
    &&& s1.in_play == s0.in_play
    &&& s1.used@ == s0.used@
    &&& s1.word_status == ws
}

/// Only one board cell changed, to `c`.
pub open spec fn board_updated(s0: AppState, s1: AppState, r: int, k: int, c: char) -> bool {
    &&& same_stats(s0, s1)
    &&& s1.game == s0.game
    &&& s1.answer@ == s0.answer@
    &&& board_views(s1) == board_views(s0).update(r, board_views(s0)[r].update(k, c))
    &&& s1.in_play == s0.in_play
    &&& s1.used@ == s0.used@
    &&& s1.word_status == s0.word_status
}

/// The fresh-board relation: the next word is drawn from the play list and
/// the attempt state is cleared, while the statistics carry over.
pub open spec fn new_game_rel(s0: AppState, s1: AppState, pw: Seq<Seq<char>>) -> bool {
    &&& same_stats(s0, s1)
    &&& s1.game == GameStatus::InPlay
    &&& s1.answer@ == pw[s0.word_index as int % pw.len() as int]
    &&& board_views(s1).len() == 6
    &&& forall|r: int| 0 <= r < 6 ==> row_blank(#[trigger] board_views(s1)[r])
    &&& s1.in_play == 0
    &&& s1.used@ == Seq::<char>::empty()
    &&& s1.word_status == WordStatus::InPlay
}

/// A single key, upper or lower case letter.
pub open spec fn is_letter_key(k: Seq<char>) -> bool {
    k.len() == 1 && ('A' <= k[0] <= 'Z' || 'a' <= k[0] <= 'z')
}

/// The uppercase form of an ASCII letter; other characters pass unchanged.
pub open spec fn spec_upper(c: char) -> char {
    if 'a' <= c <= 'z' {
        ((c as u8) - 0x20) as char
    } else {
        c
    }
}

/// What one keystroke does to the state, given the two word lists. While a
/// submitted word awaits its animation, input is ignored.
pub open spec fn input_letter_rel(
    s0: AppState,
    s1: AppState,
    key: Seq<char>,
    pw: Seq<Seq<char>>,
    vw: Seq<Seq<char>>,
) -> bool {
    if s0.word_status != WordStatus::InPlay {
        same_state(s0, s1)
    } else if s0.game != GameStatus::InPlay {
        if key == "enter"@ {
            new_game_rel(s0, s1, pw)
        } else {
            same_state(s0, s1)
        }
    } else {
        let row = board_views(s0)[s0.in_play as int];
        let fill = filled_below(row, 5);
        if is_letter_key(key) && fill < 5 {
            board_updated(s0, s1, s0.in_play as int, fill, spec_upper(key[0]))
        } else if key == "enter"@ && fill == 5 {
            if !word_in(vw, row) && !word_in(pw, row) {
                word_status_set(s0, s1, WordStatus::Invalid)
            } else {
                word_status_set(s0, s1, WordStatus::Valid)
            }
        } else if key == "delete"@ && row[0] != ' ' {
            board_updated(s0, s1, s0.in_play as int, fill - 1, ' ')
        } else {
            same_state(s0, s1)
        }
    }
}

/// Submitting a full word that neither list holds only flags it invalid:
/// the board, the attempt counter and all statistics stay as they were, and
/// the shake is signalled through the word status.
pub proof fn lemma_invalid_submission(
    s0: AppState,
    s1: AppState,
    pw: Seq<Seq<char>>,
    vw: Seq<Seq<char>>,
)
    requires
        s0.word_status == WordStatus::InPlay,
        s0.game == GameStatus::InPlay,
        filled_below(board_views(s0)[s0.in_play as int], 5) == 5,
        !word_in(vw, board_views(s0)[s0.in_play as int]),
        !word_in(pw, board_views(s0)[s0.in_play as int]),
        input_letter_rel(s0, s1, "enter"@, pw, vw),
    ensures
        word_status_set(s0, s1, WordStatus::Invalid),
{
    reveal_strlit("enter");
}

/// Booking a sixth wrong guess records the loss: the losses counter steps,
/// the streak resets under its kept maximum, the word index advances, and
/// the game is over.
pub proof fn lemma_sixth_loss(s0: AppState, s1: AppState)
    requires
        s0.in_play == 5,
        board_views(s0)[5] != s0.answer@,
        commit_rel(s0, s1),
    ensures
        s1.game == GameStatus::Lost,
        s1.results@ == s0.results@.update(6, (s0.results@[6] + 1) as u32),
        s1.streak == (0u32, s0.streak.1),
        s1.word_index == s0.word_index + 1,
        s1.in_play == 6,
{
}

// ---------------------------------------------------------------------------
// Small executable helpers.
// ---------------------------------------------------------------------------

/// Whether the finished word's statistics are due for persisting.
pub fn should_persist(state: &AppState) -> (r: bool)
    ensures
        r == (state.game != GameStatus::InPlay),
{
    !matches!(state.game, GameStatus::InPlay)
}

/// The exit predicate of the host loop.
pub fn exit_ui(state: &AppState) -> (r: bool)
    ensures
        r == state.exit_flag,
{
    state.exit_flag
}

/// Character-for-character equality of two rows.
pub fn chars_equal(a: &Vec<char>, b: &Vec<char>) -> (r: bool)
    ensures
        r == (a@ == b@),
{
    if a.len() != b.len() {
        return false;
    }
    let mut i: usize = 0;
    while i < a.len()
        invariant
            a@.len() == b@.len(),
            i <= a@.len(),
            forall|j: int| 0 <= j < i ==> a@[j] == b@[j],
        decreases a@.len() - i,
    {
        if a[i] != b[i] {
            return false;
        }
        i += 1;
    }
    proof {
        assert(a@ =~= b@);
    }
    true
}

/// A fresh copy of a row of characters.
pub fn copy_row(row: &Vec<char>) -> (r: Vec<char>)
    ensures
        r@ == row@,
{
    let mut out: Vec<char> = Vec::new();
    let mut i: usize = 0;
    while i < row.len()
        invariant
            i <= row@.len(),
            out@ == row@.subrange(0, i as int),
        decreases row@.len() - i,
    {
        out.push(row[i]);
        i += 1;
    }
    proof {
        assert(out@ =~= row@);
    }
    out
}

/// Whether the list holds this exact word.
pub fn contains_word(list: &Vec<Vec<char>>, w: &Vec<char>) -> (r: bool)
    ensures
        r == word_in(views(list@), w@),
{
    let mut i: usize = 0;
    while i < list.len()
        invariant
            i <= list@.len(),
            forall|j: int| 0 <= j < i ==> views(list@)[j] != w@,
        decreases list@.len() - i,
    {
        if chars_equal(&list[i], w) {
            assert(views(list@)[i as int] == w@);
            return true;
        }
        i += 1;
    }
    false
}

/// Index of the leftmost blank cell of the in-play row, as its fill count.
fn first_space_index(row: &Vec<char>) -> (r: usize)
    requires
        row_prefix(row@),
    ensures
        r == filled_below(row@, 5),
        r <= 5,
        forall|j: int| 0 <= j < r ==> row@[j] != ' ',
        forall|j: int| r <= j < 5 ==> row@[j] == ' ',
{
    let mut i: usize = 0;
    while i < 5
        invariant
            row_prefix(row@),
            i <= 5,
            forall|j: int| 0 <= j < i ==> row@[j] != ' ',
            i == filled_below(row@, i as int),
        decreases 5 - i,
    {
        if row[i] == ' ' {
            proof {
                lemma_filled_of_prefix(row@, i as int, 5);
            }
            return i;
        }
        i += 1;
    }
    i
}

/// Whether the key names a single ASCII letter.
pub fn is_valid_key(key: &str) -> (r: bool)
    ensures
        r == is_letter_key(key@),
{
    let l = key.unicode_len();
    if l == 1 {
        let c = key.get_char(0);
        ('A' <= c && c <= 'Z') || ('a' <= c && c <= 'z')
    } else {
        false
    }
}

/// Character-for-character equality of two string slices.
pub fn str_eq(a: &str, b: &str) -> (r: bool)
    ensures
        r == (a@ == b@),
{
    let la = a.unicode_len();
    let lb = b.unicode_len();
    if la != lb {
        return false;
    }
    let mut i: usize = 0;
    while i < la
        invariant
            a@.len() == la,
            b@.len() == la,
            i <= la,
            forall|j: int| 0 <= j < i ==> a@[j] == b@[j],
        decreases la - i,
    {
        if a.get_char(i) != b.get_char(i) {
            return false;
        }
        i += 1;
    }
    proof {
        assert(a@ =~= b@);
    }
    true
}

/// A blank six-by-five board.
fn blank_board() -> (b: Vec<Vec<char>>)
    ensures
        b@.len() == 6,
        forall|r: int| #![trigger b@[r]] 0 <= r < 6 ==> row_blank(b@[r]@),
{
    let mut board: Vec<Vec<char>> = Vec::new();
    let mut r: usize = 0;
    while r < 6
        invariant
            r <= 6,
            board@.len() == r,
            forall|q: int| #![trigger board@[q]] 0 <= q < r ==> row_blank(board@[q]@),
        decreases 6 - r,
    {
        let mut row: Vec<char> = Vec::new();
        let mut k: usize = 0;
        while k < 5
            invariant
                k <= 5,
                row@.len() == k,
                forall|j: int| 0 <= j < k ==> #[trigger] row@[j] == ' ',
            decreases 5 - k,
        {
            row.push(' ');
            k += 1;
        }
        board.push(row);
        r += 1;
    }
    board
}

impl AppState {
    /// The state at startup: statistics restored from storage, a fresh board,
    /// and the answer drawn from the play list at the stored index.
    pub fn new(
        results: Vec<u32>,
        streak: (u32, u32),
        word_index: u32,
        play_words: &Vec<Vec<char>>,
    ) -> (s: AppState)
        requires
            results@.len() == 7,
            wf_words(views(play_words@)),
            play_words@.len() > 0,
        ensures
            wf(s),
            s.app_x == 0 && s.app_y == 0,
            s.game == GameStatus::InPlay,
            s.word_index == word_index,
            s.answer@ == views(play_words@)[word_index as int % play_words@.len() as int],
            forall|r: int| 0 <= r < 6 ==> row_blank(#[trigger] board_views(s)[r]),
            s.in_play == 0,
            s.used@ == Seq::<char>::empty(),
            s.results@ == results@,
            s.streak == streak,
            !s.exit_flag,
            s.word_status == WordStatus::InPlay,
    {
        let idx = (word_index as usize) % play_words.len();
        let answer = copy_row(&play_words[idx]);
        let s = AppState {
            app_x: 0,
            app_y: 0,
            game: GameStatus::InPlay,
            word_index,
            answer,
            status: blank_board(),
            in_play: 0,
            used: Vec::new(),
            results,
            streak,
            exit_flag: false,
            word_status: WordStatus::InPlay,
        };
        proof {
            assert(views(play_words@)[idx as int] == play_words@[idx as int]@);
            assert forall|c: char| s.used@.contains(c) <==> board_has_letter(
                s,
                c,
                s.in_play as int,
            ) by {}
        }
        s
    }
}

/// Resets the board for the next word: the answer is drawn from the play
/// list at the carried-over word index; statistics are untouched.
pub fn new_game(state: &mut AppState, play_words: &Vec<Vec<char>>)
    requires
        wf(*old(state)),
        wf_words(views(play_words@)),
        play_words@.len() > 0,
    ensures
        wf(*final(state)),
        new_game_rel(*old(state), *final(state), views(play_words@)),
        final(state).streak == old(state).streak,
{
    let idx = (state.word_index as usize) % play_words.len();
    state.game = GameStatus::InPlay;
    state.answer = copy_row(&play_words[idx]);
    state.in_play = 0;
    state.status = blank_board();
    state.used = Vec::new();
    state.word_status = WordStatus::InPlay;
    proof {
        assert(views(play_words@)[idx as int] == play_words@[idx as int]@);
        let s = *state;
        assert forall|c: char| s.used@.contains(c) <==> board_has_letter(s, c, s.in_play as int)
        by {}
    }
}

/// Routes one keystroke: a letter fills the next cell of the in-play row,
/// `enter` submits a full row (marking it `Valid` or `Invalid` against the
/// word lists) or starts a new game once the word is over, and `delete`
/// clears the rightmost letter.
pub fn input_letter(
    state: &mut AppState,
    key: &str,
    play_words: &Vec<Vec<char>>,
    valid_words: &Vec<Vec<char>>,
)
    requires
        wf(*old(state)),
        wf_words(views(play_words@)),
        wf_words(views(valid_words@)),
        play_words@.len() > 0,
    ensures
        wf(*final(state)),
        input_letter_rel(
            *old(state),
            *final(state),
            key@,
            views(play_words@),
            views(valid_words@),
        ),
        final(state).streak == old(state).streak,
{
    let ghost s0 = *old(state);
    match state.word_status {
        WordStatus::Valid | WordStatus::Invalid => {
            return ;
        },
        WordStatus::InPlay => {},
    }
    match state.game {
        GameStatus::InPlay => {
            let ip = state.in_play;
            let fill = first_space_index(&state.status[ip]);
            if is_valid_key(key) && fill < 5 {
                let c = key.get_char(0);
                let up: char = if 'a' <= c && c <= 'z' {
                    (((c as u8) - 0x20)) as char
                } else {
                    c
                };
                let mut row = copy_row(&state.status[ip]);
                row.set(fill, up);
                state.status.set(ip, row);
                proof {
                    lemma_board_cell_update(s0, *state, ip as int, fill as int, up);
                    assert('A' <= up <= 'Z');
                    assert(row_prefix(board_views(*state)[ip as int]));
                    lemma_used_preserved(s0, *state, ip as int);
                }
            } else if str_eq(key, "enter") && fill == 5 {
                let word = copy_row(&state.status[ip]);
                if !contains_word(valid_words, &word) && !contains_word(play_words, &word) {
                    state.word_status = WordStatus::Invalid;
                } else {
                    state.word_status = WordStatus::Valid;
                }
                proof {
                    assert(row_full(board_views(*state)[ip as int])) by {
                        assert(row_prefix(board_views(s0)[ip as int]));
                        lemma_full_when_filled(board_views(s0)[ip as int]);
                    }
                    assert(board_views(*state) == board_views(s0));
                }
            } else if str_eq(key, "delete") && state.status[ip][0] != ' ' {
                let mut row = copy_row(&state.status[ip]);
                row.set(fill - 1, ' ');
                state.status.set(ip, row);
                proof {
                    lemma_board_cell_update(s0, *state, ip as int, fill - 1, ' ');
                    assert(row_prefix(board_views(*state)[ip as int]));
                    lemma_used_preserved(s0, *state, ip as int);
                }
            } else {
                proof {
                    assert(board_views(*state) == board_views(s0));
                }
            }
        },
        _ => {
            if str_eq(key, "enter") {
                new_game(state, play_words);
            } else {
                proof {
                    assert(board_views(*state) == board_views(s0));
                }
            }
        },
    }
}

/// The used set extended by the letters of a row, deduplicated in first-seen
/// order.
pub open spec fn add_used(u: Seq<char>, row: Seq<char>, n: int) -> Seq<char>
    decreases n,
{
    if n <= 0 {
        u
    } else {
        let p = add_used(u, row, n - 1);
        if p.contains(row[n - 1]) {
            p
        } else {
            p.push(row[n - 1])
        }
    }
}

/// What booking an accepted word does: the win or the loss is recorded, the
/// streak and the word index move, the row's letters join the used set, and
/// the attempt counter advances.
pub open spec fn commit_rel(s0: AppState, s1: AppState) -> bool {
    let row = board_views(s0)[s0.in_play as int];
    let won = row == s0.answer@;
    let lost = !won && s0.in_play == 5;
    &&& s1.answer@ == s0.answer@
    &&& board_views(s1) == board_views(s0)
    &&& s1.in_play == s0.in_play + 1
    &&& s1.word_status == WordStatus::InPlay
    &&& s1.game == (if won {
        GameStatus::Won
    } else if lost {
        GameStatus::Lost
    } else {
        GameStatus::InPlay
    })
    &&& s1.word_index == (if won || lost {
        s0.word_index + 1
    } else {
        s0.word_index as int
    })
    &&& s1.results@ == (if won {
        s0.results@.update(s0.in_play as int, (s0.results@[s0.in_play as int] + 1) as u32)
    } else if lost {
        s0.results@.update(6, (s0.results@[6] + 1) as u32)
    } else {
        s0.results@
    })
    &&& s1.streak == (if won {
        (
            (s0.streak.0 + 1) as u32,
            if s0.streak.0 + 1 > s0.streak.1 {
                (s0.streak.0 + 1) as u32
            } else {
                s0.streak.1
            },
        )
    } else if lost {
        (0u32, s0.streak.1)
    } else {
        s0.streak
    })
    &&& s1.used@ == add_used(s0.used@, row, 5)
    &&& s1.exit_flag == s0.exit_flag
    &&& s1.app_x == s0.app_x
    &&& s1.app_y == s0.app_y
}

/// Membership in the extended used set: the old letters plus those of the
/// row's processed prefix.
proof fn lemma_add_used_contains(u: Seq<char>, row: Seq<char>, n: int)
    requires
        n >= 0,
    ensures
        forall|c: char|
            #[trigger] add_used(u, row, n).contains(c) <==> (u.contains(c) || exists|k: int|
                0 <= k < n && row[k] == c),
    decreases n,
{
    if n > 0 {
        lemma_add_used_contains(u, row, n - 1);
        let p = add_used(u, row, n - 1);
        let q = add_used(u, row, n);
        assert forall|c: char| #[trigger] q.contains(c) implies (u.contains(c) || exists|k: int|
            0 <= k < n && row[k] == c) by {
            if !p.contains(row[n - 1]) {
                let i = choose|i: int| 0 <= i < q.len() && q[i] == c;
                if i < p.len() {
                    assert(p.contains(c));
                } else {
                    assert(c == row[n - 1]);
                }
            }
        }
        assert forall|c: char| (u.contains(c) || exists|k: int| 0 <= k < n && row[k] == c) implies
            #[trigger] q.contains(c) by {
            if u.contains(c) || exists|k: int| 0 <= k < n - 1 && row[k] == c {
                assert(p.contains(c));
                let i = choose|i: int| 0 <= i < p.len() && p[i] == c;
                assert(q[i] == c);
                assert(q.contains(c));
            } else {
                assert(c == row[n - 1]);
                if p.contains(c) {
                    let i = choose|i: int| 0 <= i < p.len() && p[i] == c;
                    assert(q[i] == c);
                    assert(q.contains(c));
                } else {
                    assert(q[p.len() as int] == c);
                    assert(q.contains(c));
                }
            }
        }
    }
}

/// Deduplication keeps the used set free of repeats.
proof fn lemma_add_used_nodup(u: Seq<char>, row: Seq<char>, n: int)
    requires
        n >= 0,
        forall|i: int, j: int| 0 <= i < j < u.len() ==> #[trigger] u[i] != #[trigger] u[j],
    ensures
        forall|i: int, j: int|
            0 <= i < j < add_used(u, row, n).len() ==> #[trigger] add_used(u, row, n)[i]
                != #[trigger] add_used(u, row, n)[j],
    decreases n,
{
    if n > 0 {
        lemma_add_used_nodup(u, row, n - 1);
        let p = add_used(u, row, n - 1);
        let q = add_used(u, row, n);
        if !p.contains(row[n - 1]) {
            assert forall|i: int, j: int| 0 <= i < j < q.len() implies #[trigger] q[i]
                != #[trigger] q[j] by {
                if j == q.len() - 1 {
                    assert(q[j] == row[n - 1]);
                    assert(q[i] == p[i]);
                    assert(!p.contains(q[j]));
                    if p[i] == q[j] {
                        assert(p.contains(q[j]));
                    }
                } else {
                    assert(q[i] == p[i] && q[j] == p[j]);
                }
            }
        }
    }
}

/// Changing one counter changes the sum by exactly the change of that
/// counter.
proof fn lemma_sum_update(rs: Seq<u32>, k: int, v: u32, n: int)
    requires
        0 <= k < rs.len(),
        n <= rs.len(),
    ensures
        sum_results(rs.update(k, v), n) == sum_results(rs, n) + if k < n {
            v - rs[k]
        } else {
            0int
        },
    decreases n,
{
    if n > 0 {
        lemma_sum_update(rs, k, v, n - 1);
    }
}

/// Books an accepted word after the reveal: records the win or the loss,
/// moves the streak and the word index, folds the row's letters into the
/// used set, and advances the attempt counter.
pub fn commit_word(state: &mut AppState)
    requires
        wf(*old(state)),
        old(state).word_status == WordStatus::Valid,
        old(state).results@[old(state).in_play as int] < u32::MAX,
        old(state).results@[6] < u32::MAX,
        old(state).streak.0 < u32::MAX,
        old(state).word_index < u32::MAX,
    ensures
        wf(*final(state)),
        commit_rel(*old(state), *final(state)),
        streak_ok(*old(state)) ==> streak_ok(*final(state)),
        final(state).game != GameStatus::InPlay ==> streak_ok(*final(state)),
        sum_results(final(state).results@, 7) == sum_results(old(state).results@, 7) + (
        if final(state).game != GameStatus::InPlay {
            1int
        } else {
            0int
        }),
{
    let ghost s0 = *old(state);
    let ip = state.in_play;
    let won = chars_equal(&state.status[ip], &state.answer);

    if won {
        let r = state.results[ip];
        state.results.set(ip, r + 1);
        state.streak.0 = state.streak.0 + 1;
        if state.streak.0 > state.streak.1 {
            state.streak.1 = state.streak.0;
        }
        state.word_index = state.word_index + 1;
        state.game = GameStatus::Won;
        proof {
            lemma_sum_update(s0.results@, ip as int, (s0.results@[ip as int] + 1) as u32, 7);
        }
    } else if ip == 5 {
        let r = state.results[6];
        state.results.set(6, r + 1);
        state.streak.0 = 0;
        state.word_index = state.word_index + 1;
        state.game = GameStatus::Lost;
        proof {
            lemma_sum_update(s0.results@, 6, (s0.results@[6] + 1) as u32, 7);
        }
    }

    let ghost row = board_views(s0)[ip as int];
    let ghost smid = *state;
    let mut k: usize = 0;
    while k < 5
        invariant
            k <= 5,
            state.in_play == ip < 6,
            state.status@ == smid.status@,
            state.answer@ == smid.answer@,
            state.game == smid.game,
            state.word_index == smid.word_index,
            state.results@ == smid.results@,
            state.streak == smid.streak,
            state.exit_flag == smid.exit_flag,
            state.app_x == smid.app_x,
            state.app_y == smid.app_y,
            state.word_status == smid.word_status,
            smid.status@.len() == 6,
            board_views(smid)[ip as int] == row,
            board_views(*state)[ip as int] == row,
            row.len() == 5,
            state.used@ == add_used(s0.used@, row, k as int),
        decreases 5 - k,
    {
        let c = state.status[ip][k];
        assert(c == row[k as int]);
        if !crate::score::contains_char(&state.used, c) {
            state.used.push(c);
        }
        k += 1;
    }

    state.in_play = ip + 1;
    state.word_status = WordStatus::InPlay;

    proof {
        let s1 = *state;
        assert(board_views(s1) =~= board_views(s0));
        lemma_add_used_contains(s0.used@, row, 5);
        lemma_add_used_nodup(s0.used@, row, 5);
        assert(row_full(row)) by {
            assert(s0.word_status != WordStatus::InPlay);
        }
        assert forall|c: char| s1.used@.contains(c) <==> board_has_letter(
            s1,
            c,
            s1.in_play as int,
        ) by {
            if s1.used@.contains(c) {
                if s0.used@.contains(c) {
                    assert(board_has_letter(s0, c, s0.in_play as int));
                    let (r, k) = choose|r: int, k: int|
                        0 <= r < s0.in_play && 0 <= k < 5 && board_views(s0)[r][k] == c;
                    assert(board_views(s1)[r][k] == c);
                    assert(board_has_letter(s1, c, s1.in_play as int));
                } else {
                    let k = choose|k: int| 0 <= k < 5 && row[k] == c;
                    assert(board_views(s1)[ip as int][k] == c);
                    assert(board_has_letter(s1, c, s1.in_play as int));
                }
            }
            if board_has_letter(s1, c, s1.in_play as int) {
                let (r, k) = choose|r: int, k: int|
                    0 <= r < s1.in_play && 0 <= k < 5 && board_views(s1)[r][k] == c;
                if r < s0.in_play {
                    assert(board_views(s0)[r][k] == c);
                    assert(board_has_letter(s0, c, s0.in_play as int));
                    assert(s0.used@.contains(c));
                } else {
                    assert(row[k] == c);
                }
                assert(s1.used@.contains(c));
            }
        }
    }
}

/// Every board row of a well-formed state holds five cells.
pub proof fn lemma_row_len(s: AppState, r: int)
    requires
        wf(s),
        0 <= r < 6,
    ensures
        board_views(s)[r].len() == 5,
        board_views(s)[r] == s.status@[r]@,
{
    if r < s.in_play {
        assert(row_full(board_views(s)[r]));
    } else if r == s.in_play {
        assert(row_prefix(board_views(s)[r]));
    } else {
        assert(row_blank(board_views(s)[r]));
    }
}

/// The used-letter set tracks only committed rows: leaving those rows and
/// the set itself untouched keeps the correspondence.
pub proof fn lemma_used_preserved(s0: AppState, s1: AppState, n: int)
    requires
        forall|r: int| 0 <= r < n ==> #[trigger] board_views(s1)[r] == board_views(s0)[r],
        s1.used@ == s0.used@,
        forall|c: char| s0.used@.contains(c) <==> board_has_letter(s0, c, n),
    ensures
        forall|c: char| s1.used@.contains(c) <==> board_has_letter(s1, c, n),
{
    assert forall|c: char| s1.used@.contains(c) <==> board_has_letter(s1, c, n) by {
        if s1.used@.contains(c) {
            assert(s0.used@.contains(c));
            assert(board_has_letter(s0, c, n));
            let (r, k) = choose|r: int, k: int|
                0 <= r < n && 0 <= k < 5 && board_views(s0)[r][k] == c;
            assert(board_views(s1)[r] == board_views(s0)[r]);
            assert(board_views(s1)[r][k] == c);
            assert(board_has_letter(s1, c, n));
        }
        if board_has_letter(s1, c, n) {
            let (r, k) = choose|r: int, k: int|
                0 <= r < n && 0 <= k < 5 && board_views(s1)[r][k] == c;
            assert(board_views(s1)[r] == board_views(s0)[r]);
            assert(board_views(s0)[r][k] == c);
            assert(board_has_letter(s0, c, n));
            assert(s0.used@.contains(c));
        }
    }
}

/// A prefix-shaped row with five filled cells is full.
proof fn lemma_full_when_filled(row: Seq<char>)
    requires
        row_prefix(row),
        filled_below(row, 5) == 5,
    ensures
        row_full(row),
{
    assert forall|j: int| 0 <= j < 5 implies 'A' <= #[trigger] row[j] <= 'Z' by {
        if row[j] == ' ' {
            lemma_filled_of_prefix(row, j, 5);
            lemma_filled_bound(row, j);
        }
    }
}

/// The fill count below `n` never exceeds `n`.
proof fn lemma_filled_bound(row: Seq<char>, n: int)
    requires
        n >= 0,
    ensures
        filled_below(row, n) <= n,
    decreases n,
{
    if n > 0 {
        lemma_filled_bound(row, n - 1);
    }
}

/// Replacing one cell of one row relates the two board views cell by cell.
proof fn lemma_board_cell_update(s0: AppState, s1: AppState, r: int, k: int, c: char)
    requires
        0 <= r < s0.status@.len(),
        s1.status@.len() == s0.status@.len(),
        0 <= k,
        s1.status@[r]@ == s0.status@[r]@.update(k, c),
        forall|q: int| 0 <= q < s0.status@.len() && q != r ==> s1.status@[q] == s0.status@[q],
    ensures
        board_views(s1) == board_views(s0).update(r, board_views(s0)[r].update(k, c)),
{
    assert(board_views(s1) =~= board_views(s0).update(r, board_views(s0)[r].update(k, c)));
}

/// Once a prefix-shaped row goes blank, the fill count stops growing.
proof fn lemma_filled_of_prefix(row: Seq<char>, i: int, n: int)
    requires
        row_prefix(row),
        0 <= i <= n <= 5,
        i < 5 && row[i] == ' ',
    ensures
        filled_below(row, n) == filled_below(row, i),
    decreases n,
{
    if n > i {
        lemma_filled_of_prefix(row, i, n - 1);
    }
}

} // verus!
