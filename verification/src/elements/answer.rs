//! The answer line: `Wordle #n` with question marks while the word is in
//! play, and the answer (inverse on a loss) once it is over.

use vstd::prelude::*;

use crate::element::{push_char, push_u32, spec_fits, Element, ElementKind};
use crate::game::{wf, AppState, GameStatus};
use crate::style::{inverse, spec_inverse};
use crate::text::dec_rep;

verus! {

pub const ANSWER_X: u16 = 30;

pub const ANSWER_Y: u16 = 2;

/// The word number the line shows: the next word while in play, the just
/// finished one afterwards.
pub open spec fn shown_index(s: AppState) -> int {
    if s.game == GameStatus::InPlay {
        if s.word_index < u32::MAX {
            s.word_index + 1
        } else {
            s.word_index as int
        }
    } else {
        s.word_index as int
    }
}

/// The single cell of the answer element.
pub open spec fn answer_line(s: AppState) -> Seq<char> {
    if s.game == GameStatus::InPlay {
        "Wordle #"@ + dec_rep(shown_index(s)) + " ?????"@
    } else if s.game == GameStatus::Won {
        "Wordle #"@ + dec_rep(shown_index(s)) + " "@ + s.answer@
    } else {
        "Wordle #"@ + dec_rep(shown_index(s)) + " "@ + spec_inverse(s.answer@)
    }
}

/// The praise word for a win on the given attempt.
pub open spec fn praise_word(index_in_play: int) -> Seq<char> {
    if index_in_play == 1 {
        "Genius"@
    } else if index_in_play == 2 {
        "Magnificent"@
    } else if index_in_play == 3 {
        "Impressive"@
    } else if index_in_play == 4 {
        "Splendid"@
    } else if index_in_play == 5 {
        "Great"@
    } else if index_in_play == 6 {
        "Phew"@
    } else {
        "???"@
    }
}

/// The praise for a win after this many attempts, from genius down to a
/// narrow escape.
pub fn praise(index_in_play: usize) -> (r: String)
    ensures
        r@ == praise_word(index_in_play as int),
{
    let mut s = String::new();
    match index_in_play {
        1 => s.append("Genius"),
        2 => s.append("Magnificent"),
        3 => s.append("Impressive"),
        4 => s.append("Splendid"),
        5 => s.append("Great"),
        6 => s.append("Phew"),
        _ => s.append("???"),
    }
    s
}

pub fn build() -> (el: Element)
    ensures
        el.kind == ElementKind::Answer,
        el.x == 0 && el.y == 0,
        el.look@.len() == 0,
{
    Element { kind: ElementKind::Answer, x: 0, y: 0, look: Vec::new() }
}

/// Rebuilds the line from the lifecycle phase and places it above the
/// statistics.
pub fn on_state(el: &mut Element, state: &AppState, cols: u16, rows: u16) -> (draw: bool)
    requires
        wf(*state),
    ensures
        final(el).kind == old(el).kind,
        final(el).look@.len() == 1,
        final(el).look@[0]@.len() == 1,
        final(el).look@[0]@[0]@ == answer_line(*state),
        final(el).x == state.app_x + ANSWER_X,
        final(el).y == state.app_y + ANSWER_Y,
        draw == spec_fits(cols, rows),
{
    let mut line = String::new();
    line.append("Wordle #");
    let shown: u32 = if matches!(state.game, GameStatus::InPlay) {
        if state.word_index < u32::MAX {
            state.word_index + 1
        } else {
            state.word_index
        }
    } else {
        state.word_index
    };
    push_u32(&mut line, shown);
    match state.game {
        GameStatus::InPlay => {
            line.append(" ?????");
            proof {
                assert(line@ =~= "Wordle #"@ + dec_rep(shown as int) + " ?????"@);
            }
        },
        GameStatus::Won => {
            line.append(" ");
            proof {
                assert(line@ =~= "Wordle #"@ + dec_rep(shown as int) + " "@
                    + state.answer@.subrange(0, 0));
            }
            let mut k: usize = 0;
            while k < state.answer.len()
                invariant
                    k <= state.answer@.len(),
                    line@ == "Wordle #"@ + dec_rep(shown as int) + " "@ + state.answer@.subrange(
                        0,
                        k as int,
                    ),
                decreases state.answer@.len() - k,
            {
                push_char(&mut line, state.answer[k]);
                proof {
                    assert(line@ =~= "Wordle #"@ + dec_rep(shown as int) + " "@
                        + state.answer@.subrange(0, k + 1));
                }
                k += 1;
            }
            proof {
                assert(state.answer@.subrange(0, state.answer@.len() as int) =~= state.answer@);
                assert(line@ =~= "Wordle #"@ + dec_rep(shown as int) + " "@ + state.answer@);
            }
        },
        GameStatus::Lost => {
            line.append(" ");
            let mut word = String::new();
            let mut k: usize = 0;
            while k < state.answer.len()
                invariant
                    k <= state.answer@.len(),
                    word@ == state.answer@.subrange(0, k as int),
                decreases state.answer@.len() - k,
            {
                push_char(&mut word, state.answer[k]);
                proof {
                    assert(word@ =~= state.answer@.subrange(0, k + 1));
                }
                k += 1;
            }
            proof {
                assert(word@ =~= state.answer@);
            }
            let styled = inverse(word.as_str());
            line.append(styled.as_str());
            proof {
                assert(line@ =~= "Wordle #"@ + dec_rep(shown as int) + " "@ + spec_inverse(
                    state.answer@,
                ));
            }
        },
    }
    let mut row: Vec<String> = Vec::new();
    row.push(line);
    let mut look: Vec<Vec<String>> = Vec::new();
    look.push(row);
    el.look = look;
    el.x = state.app_x + ANSWER_X;
    el.y = state.app_y + ANSWER_Y;
    crate::element::fits(cols, rows)
}

} // verus!
