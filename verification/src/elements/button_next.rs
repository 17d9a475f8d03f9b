//! The next button: an underlined label shown once the word is over; a
//! click starts the next game. While it is visible the host also persists
//! the statistics.

use vstd::prelude::*;

use crate::element::{mouse_over, spec_fits, spec_mouse_over, Element, ElementKind};
use crate::game::{new_game, new_game_rel, same_state, views, wf, wf_words, AppState, GameStatus};
use crate::style::{spec_underline, underline};

verus! {

pub const NEXT_X: u16 = 75;

pub const NEXT_Y: u16 = 22;

pub fn build() -> (el: Element)
    ensures
        el.kind == ElementKind::ButtonNext,
        el.x == 0 && el.y == 0,
        el.look@.len() == 0,
{
    Element { kind: ElementKind::ButtonNext, x: 0, y: 0, look: Vec::new() }
}

/// A click on the visible label starts the next game.
pub fn on_click(el: &Element, state: &mut AppState, x: u16, y: u16, play_words: &Vec<Vec<char>>)
    requires
        wf(*old(state)),
        wf_words(views(play_words@)),
        play_words@.len() > 0,
    ensures
        wf(*final(state)),
        if old(state).game != GameStatus::InPlay && spec_mouse_over(*el, x, y) {
            new_game_rel(*old(state), *final(state), views(play_words@))
        } else {
            same_state(*old(state), *final(state))
        },
{
    if !matches!(state.game, GameStatus::InPlay) {
        if mouse_over(el, x, y) {
            new_game(state, play_words);
        }
    }
}

/// Shows the underlined label when the word is over, four blanks otherwise,
/// at its place near the bottom-right of the window.
pub fn on_state(el: &mut Element, state: &AppState, cols: u16, rows: u16) -> (draw: bool)
    requires
        wf(*state),
    ensures
        final(el).kind == old(el).kind,
        final(el).look@.len() == 1,
        final(el).look@[0]@.len() == 1,
        final(el).look@[0]@[0]@ == (if state.game != GameStatus::InPlay {
            spec_underline("Next"@)
        } else {
            "    "@
        }),
        final(el).x == state.app_x + NEXT_X,
        final(el).y == state.app_y + NEXT_Y,
        draw == spec_fits(cols, rows),
{
    let mut row: Vec<String> = Vec::new();
    if !matches!(state.game, GameStatus::InPlay) {
        row.push(underline("Next"));
    } else {
        let mut blank = String::new();
        proof {
            reveal_strlit("    ");
        }
        blank.append("    ");
        row.push(blank);
    }
    let mut look: Vec<Vec<String>> = Vec::new();
    look.push(row);
    el.look = look;
    el.x = state.app_x + NEXT_X;
    el.y = state.app_y + NEXT_Y;
    crate::element::fits(cols, rows)
}

} // verus!
