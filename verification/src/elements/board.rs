//! The board element: six rows of five letter boxes. Committed rows carry
//! the background colours of their letters' statuses; the board also runs
//! the two animations when the word status asks for one, and books the word
//! once the reveal has run.

use vstd::prelude::*;

use crate::element::{cell, Element, ElementKind, Frame};
use crate::elements::animators::{
    invalid_word_frames, reveal_frames, reveal_look_at, shake_look_at,
};
use crate::game::{
    board_views, commit_rel, commit_word, same_state, sum_results, wf, word_status_set, AppState,
    GameStatus, WordStatus,
};
use crate::score::{score_char, wordle_highlight};
use crate::style::{look_views, set_background, styled_bg};

verus! {

/// The board's offset inside the window.
pub const BOARD_X: u16 = 9;

pub const BOARD_Y: u16 = 4;

/// The bare box-drawing character of grid cell `(i, j)`: the borders of the
/// five-by-three boxes, with the row's letter in the middle.
pub open spec fn board_base_char(s: AppState, i: int, j: int) -> char {
    let br = i % 3;
    let bc = j % 5;
    if br == 0 {
        if bc == 0 {
            '┌'
        } else if bc == 4 {
            '┐'
        } else {
            '─'
        }
    } else if br == 1 {
        if bc == 0 || bc == 4 {
            '│'
        } else if bc == 2 {
            board_views(s)[i / 3][j / 5]
        } else {
            ' '
        }
    } else {
        if bc == 0 {
            '└'
        } else if bc == 4 {
            '┘'
        } else {
            '─'
        }
    }
}

/// Grid cell `(i, j)` of the board: committed rows carry the background of
/// their letters' statuses; the in-play row and blank cells stay bare.
pub open spec fn board_cell(s: AppState, i: int, j: int) -> Seq<char> {
    let r = i / 3;
    let c = j / 5;
    let base = board_base_char(s, i, j);
    if s.in_play == r || board_views(s)[r][c] == ' ' {
        seq![base]
    } else {
        styled_bg(score_char(board_views(s)[r], s.answer@, c), seq![base])
    }
}

/// The whole board projection as a grid of plain character sequences.
pub open spec fn board_look_views(s: AppState) -> Seq<Seq<Seq<char>>> {
    Seq::new(18, |i: int| Seq::new(25, |j: int| board_cell(s, i, j)))
}

/// The reveal animation restores consistency: its final frame, run over the
/// projected board of the submitted state, shows cell for cell what the
/// board's own projection shows once the word is booked.
pub proof fn lemma_reveal_restores_board(s0: AppState, s1: AppState)
    requires
        wf(s0),
        s0.word_status == WordStatus::Valid,
        commit_rel(s0, s1),
    ensures
        forall|i: int, j: int|
            0 <= i < 18 && 0 <= j < 25 ==> crate::elements::animators::reveal_cell(
                board_look_views(s0),
                s0.in_play as int,
                board_views(s0)[s0.in_play as int],
                s0.answer@,
                9,
                i,
                j,
            ) == board_cell(s1, i, j),
{
    let ip = s0.in_play as int;
    let row = board_views(s0)[ip];
    assert(crate::game::row_full(row));
    assert forall|i: int, j: int| 0 <= i < 18 && 0 <= j < 25 implies
        crate::elements::animators::reveal_cell(
            board_look_views(s0),
            ip,
            row,
            s0.answer@,
            9,
            i,
            j,
        ) == board_cell(s1, i, j) by {
        let r = i / 3;
        let c = j / 5;
        vstd::arithmetic::div_mod::lemma_fundamental_div_mod(i, 3);
        vstd::arithmetic::div_mod::lemma_fundamental_div_mod(j, 5);
        assert(board_views(s1) == board_views(s0));
        assert(s1.answer@ == s0.answer@);
        assert(s1.in_play == ip + 1);
        if ip * 3 <= i < ip * 3 + 3 {
            assert(r == ip) by {
                vstd::arithmetic::div_mod::lemma_fundamental_div_mod_converse(
                    i,
                    3,
                    ip,
                    i - ip * 3,
                );
            }
            assert('A' <= row[c] <= 'Z');
            assert(board_base_char(s1, i, j) == crate::elements::animators::reveal_box_char(
                i - ip * 3,
                j % 5,
                row[c],
            ));
        } else {
            assert(r != ip);
            assert(board_look_views(s0)[i][j] == board_cell(s0, i, j));
            if r < ip {
                assert(crate::game::row_full(board_views(s0)[r]));
                assert('A' <= board_views(s0)[r][c] <= 'Z');
            } else {
                assert(ip < r < 6);
                assert(crate::game::row_blank(board_views(s0)[r]));
                assert(board_views(s0)[r][c] == ' ');
            }
            assert(board_base_char(s1, i, j) == board_base_char(s0, i, j));
        }
    }
}

/// The board element, before its first state projection.
pub fn build() -> (el: Element)
    ensures
        el.kind == ElementKind::Board,
        el.x == 0 && el.y == 0,
        el.look@.len() == 0,
{
    Element { kind: ElementKind::Board, x: 0, y: 0, look: Vec::new() }
}

/// The whole board look projected from the state.
pub fn board_look(state: &AppState) -> (look: Vec<Vec<String>>)
    requires
        wf(*state),
    ensures
        look@.len() == 18,
        forall|i: int| 0 <= i < 18 ==> #[trigger] look@[i]@.len() == 25,
        forall|i: int, j: int|
            0 <= i < 18 && 0 <= j < 25 ==> #[trigger] look@[i]@[j]@ == board_cell(*state, i, j),
{
    let mut look: Vec<Vec<String>> = Vec::new();
    let mut r: usize = 0;
    while r < 6
        invariant
            r <= 6,
            wf(*state),
            look@.len() == 3 * r,
            forall|i: int| 0 <= i < 3 * r ==> #[trigger] look@[i]@.len() == 25,
            forall|i: int, j: int|
                0 <= i < 3 * r && 0 <= j < 25 ==> #[trigger] look@[i]@[j]@ == board_cell(
                    *state,
                    i,
                    j,
                ),
        decreases 6 - r,
    {
        proof {
            crate::game::lemma_row_len(*state, r as int);
        }
        let statuses = wordle_highlight(&state.status[r], &state.answer);
        let mut br: usize = 0;
        while br < 3
            invariant
                br <= 3,
                r < 6,
                wf(*state),
                statuses@.len() == 5,
                forall|c: int|
                    0 <= c < 5 ==> statuses@[c] == score_char(
                        board_views(*state)[r as int],
                        state.answer@,
                        c,
                    ),
                look@.len() == 3 * r + br,
                forall|i: int| 0 <= i < 3 * r + br ==> #[trigger] look@[i]@.len() == 25,
                forall|i: int, j: int|
                    0 <= i < 3 * r + br && 0 <= j < 25 ==> #[trigger] look@[i]@[j]@ == board_cell(
                        *state,
                        i,
                        j,
                    ),
            decreases 3 - br,
        {
            let ghost i = 3 * r + br;
            let mut row: Vec<String> = Vec::new();
            let mut c: usize = 0;
            while c < 5
                invariant
                    c <= 5,
                    br < 3,
                    r < 6,
                    wf(*state),
                    i == 3 * r + br,
                    statuses@.len() == 5,
                    forall|q: int|
                        0 <= q < 5 ==> statuses@[q] == score_char(
                            board_views(*state)[r as int],
                            state.answer@,
                            q,
                        ),
                    row@.len() == 5 * c,
                    forall|j: int|
                        0 <= j < 5 * c ==> #[trigger] row@[j]@ == board_cell(*state, i, j),
                decreases 5 - c,
            {
                proof {
                    crate::game::lemma_row_len(*state, r as int);
                }
                let letter = state.status[r][c];
                let mut bc: usize = 0;
                while bc < 5
                    invariant
                        bc <= 5,
                        c < 5,
                        br < 3,
                        r < 6,
                        wf(*state),
                        i == 3 * r + br,
                        letter == board_views(*state)[r as int][c as int],
                        statuses@.len() == 5,
                        forall|q: int|
                            0 <= q < 5 ==> statuses@[q] == score_char(
                                board_views(*state)[r as int],
                                state.answer@,
                                q,
                            ),
                        row@.len() == 5 * c + bc,
                        forall|j: int|
                            0 <= j < 5 * c + bc ==> #[trigger] row@[j]@ == board_cell(*state, i, j),
                    decreases 5 - bc,
                {
                    let ghost j = 5 * c + bc;
                    let base: char = if br == 0 {
                        if bc == 0 {
                            '┌'
                        } else if bc == 4 {
                            '┐'
                        } else {
                            '─'
                        }
                    } else if br == 1 {
                        if bc == 0 || bc == 4 {
                            '│'
                        } else if bc == 2 {
                            letter
                        } else {
                            ' '
                        }
                    } else {
                        if bc == 0 {
                            '└'
                        } else if bc == 4 {
                            '┘'
                        } else {
                            '─'
                        }
                    };
                    proof {
                        vstd::arithmetic::div_mod::lemma_fundamental_div_mod_converse(
                            i,
                            3,
                            r as int,
                            br as int,
                        );
                        vstd::arithmetic::div_mod::lemma_fundamental_div_mod_converse(
                            j,
                            5,
                            c as int,
                            bc as int,
                        );
                        assert(base == board_base_char(*state, i, j));
                    }
                    if state.in_play == r || letter == ' ' {
                        row.push(cell(base));
                    } else {
                        row.push(set_background(statuses[c], cell(base).as_str()));
                    }
                    bc += 1;
                }
                c += 1;
            }
            look.push(row);
            br += 1;
        }
        r += 1;
    }
    look
}

/// Re-projects the board's look and position from the state; drawing is
/// suppressed when the terminal is too small.
pub fn on_state(el: &mut Element, state: &AppState, cols: u16, rows: u16) -> (draw: bool)
    requires
        wf(*state),
    ensures
        final(el).kind == old(el).kind,
        final(el).look@.len() == 18,
        forall|i: int| 0 <= i < 18 ==> #[trigger] final(el).look@[i]@.len() == 25,
        forall|i: int, j: int|
            0 <= i < 18 && 0 <= j < 25 ==> #[trigger] final(el).look@[i]@[j]@ == board_cell(
                *state,
                i,
                j,
            ),
        draw == crate::element::spec_fits(cols, rows),
        final(el).x == state.app_x + BOARD_X,
        final(el).y == state.app_y + BOARD_Y,
{
    el.look = board_look(state);
    el.x = state.app_x + BOARD_X;
    el.y = state.app_y + BOARD_Y;
    crate::element::fits(cols, rows)
}

/// Watches the word status each tick: an invalid word shakes the current
/// row, a valid one runs the reveal flip and is then booked. The returned
/// frames are what the host must draw, each followed by its delay.
pub fn on_loop(el: &mut Element, state: &mut AppState) -> (frames: Vec<Frame>)
    requires
        wf(*old(state)),
        old(state).word_status != WordStatus::InPlay ==> old(el).look@.len() == 18 && (forall|
            i: int,
        |
            0 <= i < 18 ==> #[trigger] old(el).look@[i]@.len() == 25),
        old(state).word_status == WordStatus::Valid ==> old(state).results@[old(
            state,
        ).in_play as int] < u32::MAX && old(state).results@[6] < u32::MAX && old(state).streak.0
            < u32::MAX && old(state).word_index < u32::MAX,
    ensures
        wf(*final(state)),
        final(el).kind == old(el).kind,
        old(state).word_status == WordStatus::InPlay ==> same_state(*old(state), *final(state))
            && final(el).look@ == old(el).look@ && frames@.len() == 0,
        old(state).word_status == WordStatus::Invalid ==> {
            &&& word_status_set(*old(state), *final(state), WordStatus::InPlay)
            &&& frames@.len() == 6
            &&& (forall|k: int|
                0 <= k < 6 ==> (#[trigger] frames@[k]).delay_ms == 50 && look_views(
                    frames@[k].look@,
                ) == shake_look_at(
                    look_views(old(el).look@),
                    old(state).in_play as int,
                    k,
                ))
            &&& look_views(final(el).look@) == look_views(old(el).look@)
        },
        old(state).word_status == WordStatus::Valid ==> {
            &&& commit_rel(*old(state), *final(state))
            &&& frames@.len() == 10
            &&& (forall|k: int|
                0 <= k < 10 ==> (#[trigger] frames@[k]).delay_ms == 300 && look_views(
                    frames@[k].look@,
                ) == reveal_look_at(
                    look_views(old(el).look@),
                    old(state).in_play as int,
                    board_views(*old(state))[old(state).in_play as int],
                    old(state).answer@,
                    k,
                ))
            &&& look_views(final(el).look@) == look_views(frames@[9].look@)
            &&& (crate::game::streak_ok(*old(state)) ==> crate::game::streak_ok(*final(state)))
            &&& sum_results(final(state).results@, 7) == sum_results(old(state).results@, 7) + (
            if final(state).game != GameStatus::InPlay {
                1int
            } else {
                0int
            })
        },
{
    match state.word_status {
        WordStatus::InPlay => Vec::new(),
        WordStatus::Invalid => {
            let frames = invalid_word_frames(&el.look, state.in_play);
            state.word_status = WordStatus::InPlay;
            proof {
                assert(board_views(*state) == board_views(*old(state)));
                crate::game::lemma_used_preserved(*old(state), *state, state.in_play as int);
            }
            frames
        },
        WordStatus::Valid => {
            let ip = state.in_play;
            let row = crate::game::copy_row(&state.status[ip]);
            proof {
                assert(row@ == board_views(*old(state))[ip as int]);
            }
            let frames = reveal_frames(&el.look, ip, &row, &state.answer);
            el.look = crate::element::copy_look(&frames[9].look);
            proof {
                assert(look_views(el.look@) =~= look_views(frames@[9].look@));
            }
            commit_word(state);
            frames
        },
    }
}

} // verus!
