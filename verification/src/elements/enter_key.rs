//! The enter key below the keyboard: a fixed box whose click submits the
//! current row.

use vstd::prelude::*;

use crate::element::{cell, mouse_over, spec_fits, spec_mouse_over, Element, ElementKind};
use crate::game::{input_letter, input_letter_rel, views, wf, wf_words, AppState};

verus! {

pub const ENTER_X: u16 = 40;

pub const ENTER_Y: u16 = 19;

/// The bare character of the enter key's box at `(i, j)`.
pub open spec fn enter_cell(i: int, j: int) -> Seq<char> {
    seq![
        if i == 0 {
            if j == 0 {
                '┌'
            } else if j == 4 {
                '┐'
            } else {
                '─'
            }
        } else if i == 1 {
            if j == 0 || j == 4 {
                '│'
            } else if j == 2 {
                '↩'
            } else {
                ' '
            }
        } else {
            if j == 0 {
                '└'
            } else if j == 4 {
                '┘'
            } else {
                '─'
            }
        },
    ]
}

pub fn build() -> (el: Element)
    ensures
        el.kind == ElementKind::EnterKey,
        el.x == 0 && el.y == 0,
        el.look@.len() == 3,
        forall|i: int| 0 <= i < 3 ==> (#[trigger] el.look@[i]@).len() == 5,
        forall|i: int, j: int|
            0 <= i < 3 && 0 <= j < 5 ==> #[trigger] el.look@[i]@[j]@ == enter_cell(i, j),
{
    let mut look: Vec<Vec<String>> = Vec::new();
    let mut i: usize = 0;
    while i < 3
        invariant
            i <= 3,
            look@.len() == i,
            forall|p: int| 0 <= p < i ==> (#[trigger] look@[p]@).len() == 5,
            forall|p: int, q: int|
                0 <= p < i && 0 <= q < 5 ==> #[trigger] look@[p]@[q]@ == enter_cell(p, q),
        decreases 3 - i,
    {
        let mut row: Vec<String> = Vec::new();
        let mut j: usize = 0;
        while j < 5
            invariant
                j <= 5,
                i < 3,
                row@.len() == j,
                forall|q: int| 0 <= q < j ==> #[trigger] row@[q]@ == enter_cell(i as int, q),
            decreases 5 - j,
        {
            let c: char = if i == 0 {
                if j == 0 {
                    '┌'
                } else if j == 4 {
                    '┐'
                } else {
                    '─'
                }
            } else if i == 1 {
                if j == 0 || j == 4 {
                    '│'
                } else if j == 2 {
                    '↩'
                } else {
                    ' '
                }
            } else {
                if j == 0 {
                    '└'
                } else if j == 4 {
                    '┘'
                } else {
                    '─'
                }
            };
            row.push(cell(c));
            j += 1;
        }
        look.push(row);
        i += 1;
    }
    Element { kind: ElementKind::EnterKey, x: 0, y: 0, look }
}

/// A click on the box submits the current row, as the enter key would.
pub fn on_click(
    el: &Element,
    state: &mut AppState,
    x: u16,
    y: u16,
    play_words: &Vec<Vec<char>>,
    valid_words: &Vec<Vec<char>>,
)
    requires
        wf(*old(state)),
        wf_words(views(play_words@)),
        wf_words(views(valid_words@)),
        play_words@.len() > 0,
    ensures
        wf(*final(state)),
        spec_mouse_over(*el, x, y) ==> input_letter_rel(
            *old(state),
            *final(state),
            "enter"@,
            views(play_words@),
            views(valid_words@),
        ),
        !spec_mouse_over(*el, x, y) ==> *final(state) == *old(state),
{
    if mouse_over(el, x, y) {
        input_letter(state, "enter", play_words, valid_words);
    }
}

/// Pins the box below the keyboard.
pub fn on_state(el: &mut Element, state: &AppState, cols: u16, rows: u16) -> (draw: bool)
    requires
        wf(*state),
    ensures
        final(el).kind == old(el).kind,
        final(el).look@ == old(el).look@,
        final(el).x == state.app_x + ENTER_X,
        final(el).y == state.app_y + ENTER_Y,
        draw == spec_fits(cols, rows),
{
    el.x = state.app_x + ENTER_X;
    el.y = state.app_y + ENTER_Y;
    crate::element::fits(cols, rows)
}

} // verus!
