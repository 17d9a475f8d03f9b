//! The delete key below the keyboard: a fixed box whose click clears the
//! rightmost letter of the current row.

use vstd::prelude::*;

use crate::element::{cell, mouse_over, spec_fits, spec_mouse_over, Element, ElementKind};
use crate::game::{input_letter, input_letter_rel, views, wf, wf_words, AppState};

verus! {

pub const DELETE_X: u16 = 66;

pub const DELETE_Y: u16 = 19;

/// The bare character of the delete key's box at `(i, j)`.
pub open spec fn delete_cell(i: int, j: int) -> Seq<char> {
    seq![
        if i == 0 {
            if j == 0 {
                '┌'
            } else if j == 3 {
                '┐'
            } else {
                '─'
            }
        } else if i == 1 {
            if j == 0 || j == 3 {
                '│'
            } else if j == 2 {
                '⌫'
            } else {
                ' '
            }
        } else {
            if j == 0 {
                '└'
            } else if j == 3 {
                '┘'
            } else {
                '─'
            }
        },
    ]
}

pub fn build() -> (el: Element)
    ensures
        el.kind == ElementKind::DeleteKey,
        el.x == 0 && el.y == 0,
        el.look@.len() == 3,
        forall|i: int| 0 <= i < 3 ==> (#[trigger] el.look@[i]@).len() == 4,
        forall|i: int, j: int|
            0 <= i < 3 && 0 <= j < 4 ==> #[trigger] el.look@[i]@[j]@ == delete_cell(i, j),
{
    let mut look: Vec<Vec<String>> = Vec::new();
    let mut i: usize = 0;
    while i < 3
        invariant
            i <= 3,
            look@.len() == i,
            forall|p: int| 0 <= p < i ==> (#[trigger] look@[p]@).len() == 4,
            forall|p: int, q: int|
                0 <= p < i && 0 <= q < 4 ==> #[trigger] look@[p]@[q]@ == delete_cell(p, q),
        decreases 3 - i,
    {
        let mut row: Vec<String> = Vec::new();
        let mut j: usize = 0;
        while j < 4
            invariant
                j <= 4,
                i < 3,
                row@.len() == j,
                forall|q: int| 0 <= q < j ==> #[trigger] row@[q]@ == delete_cell(i as int, q),
            decreases 4 - j,
        {
            let c: char = if i == 0 {
                if j == 0 {
                    '┌'
                } else if j == 3 {
                    '┐'
                } else {
                    '─'
                }
            } else if i == 1 {
                if j == 0 || j == 3 {
                    '│'
                } else if j == 2 {
                    '⌫'
                } else {
                    ' '
                }
            } else {
                if j == 0 {
                    '└'
                } else if j == 3 {
                    '┘'
                } else {
                    '─'
                }
            };
            row.push(cell(c));
            j += 1;
        }
        look.push(row);
        i += 1;
    }
    Element { kind: ElementKind::DeleteKey, x: 0, y: 0, look }
}

/// A click on the box clears the rightmost letter, as the delete key would.
pub fn on_click(
    el: &Element,
    state: &mut AppState,
    x: u16,
    y: u16,
    play_words: &Vec<Vec<char>>,
    valid_words: &Vec<Vec<char>>,
)
    requires
        wf(*old(state)),
        wf_words(views(play_words@)),
        wf_words(views(valid_words@)),
        play_words@.len() > 0,
    ensures
        wf(*final(state)),
        spec_mouse_over(*el, x, y) ==> input_letter_rel(
            *old(state),
            *final(state),
            "delete"@,
            views(play_words@),
            views(valid_words@),
        ),
        !spec_mouse_over(*el, x, y) ==> *final(state) == *old(state),
{
    if mouse_over(el, x, y) {
        input_letter(state, "delete", play_words, valid_words);
    }
}

/// Pins the box below the keyboard.
pub fn on_state(el: &mut Element, state: &AppState, cols: u16, rows: u16) -> (draw: bool)
    requires
        wf(*state),
    ensures
        final(el).kind == old(el).kind,
        final(el).look@ == old(el).look@,
        final(el).x == state.app_x + DELETE_X,
        final(el).y == state.app_y + DELETE_Y,
        draw == spec_fits(cols, rows),
{
    el.x = state.app_x + DELETE_X;
    el.y = state.app_y + DELETE_Y;
    crate::element::fits(cols, rows)
}

} // verus!
