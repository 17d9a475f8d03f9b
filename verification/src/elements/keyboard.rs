//! The on-screen keyboard: one three-by-three key per letter, laid out in
//! the QWERTY rows. A key's background shows the best status its letter has
//! reached in any committed row; a click injects the letter.

use vstd::prelude::*;

use crate::element::{cell, mouse_over, spec_fits, spec_mouse_over, Element, ElementKind};
use crate::game::{
    board_views, input_letter, input_letter_rel, views, wf, wf_words, AppState,
};
use crate::score::{get_letter_status, score_char};
use crate::style::{set_background_look, styled_bg};

verus! {

/// The best status the letter reaches in the first `n` cells of row `r`.
pub open spec fn key_status_row(s: AppState, letter: char, r: int, n: int) -> u8
    decreases n,
{
    if n <= 0 {
        0
    } else {
        let prev = key_status_row(s, letter, r, n - 1);
        let cur: u8 = if board_views(s)[r][n - 1] == letter {
            score_char(board_views(s)[r], s.answer@, n - 1)
        } else {
            0
        };
        if cur > prev {
            cur
        } else {
            prev
        }
    }
}

/// The best status the letter reaches in the first `rows` committed board
/// rows; a key is coloured from committed rows only.
pub open spec fn key_status(s: AppState, letter: char, rows: int) -> u8
    decreases rows,
{
    if rows <= 0 {
        0
    } else {
        let prev = key_status(s, letter, rows - 1);
        let cur = key_status_row(s, letter, rows - 1, 5);
        if cur > prev {
            cur
        } else {
            prev
        }
    }
}

/// The bare character of a key's box at `(i, j)`.
pub open spec fn key_cell(letter: char, i: int, j: int) -> Seq<char> {
    seq![
        if i == 0 {
            if j == 0 {
                '┌'
            } else if j == 2 {
                '┐'
            } else {
                '─'
            }
        } else if i == 1 {
            if j == 0 || j == 2 {
                '│'
            } else {
                letter
            }
        } else {
            if j == 0 {
                '└'
            } else if j == 2 {
                '┘'
            } else {
                '─'
            }
        },
    ]
}

/// The bare three-by-three box of a key.
fn key_box(letter: char) -> (look: Vec<Vec<String>>)
    ensures
        look@.len() == 3,
        forall|i: int| 0 <= i < 3 ==> (#[trigger] look@[i]@).len() == 3,
        forall|i: int, j: int|
            0 <= i < 3 && 0 <= j < 3 ==> #[trigger] look@[i]@[j]@ == key_cell(letter, i, j),
{
    let mut look: Vec<Vec<String>> = Vec::new();
    let mut i: usize = 0;
    while i < 3
        invariant
            i <= 3,
            look@.len() == i,
            forall|p: int| 0 <= p < i ==> (#[trigger] look@[p]@).len() == 3,
            forall|p: int, q: int|
                0 <= p < i && 0 <= q < 3 ==> #[trigger] look@[p]@[q]@ == key_cell(letter, p, q),
        decreases 3 - i,
    {
        let mut row: Vec<String> = Vec::new();
        let mut j: usize = 0;
        while j < 3
            invariant
                j <= 3,
                i < 3,
                row@.len() == j,
                forall|q: int| 0 <= q < j ==> #[trigger] row@[q]@ == key_cell(letter, i as int, q),
            decreases 3 - j,
        {
            let c: char = if i == 0 {
                if j == 0 {
                    '┌'
                } else if j == 2 {
                    '┐'
                } else {
                    '─'
                }
            } else if i == 1 {
                if j == 0 || j == 2 {
                    '│'
                } else {
                    letter
                }
            } else {
                if j == 0 {
                    '└'
                } else if j == 2 {
                    '┘'
                } else {
                    '─'
                }
            };
            row.push(cell(c));
            j += 1;
        }
        look.push(row);
        i += 1;
    }
    look
}

/// One keyboard key at its offset inside the window.
pub fn create_key(x: u16, y: u16, letter: char) -> (el: Element)
    ensures
        el.kind == (ElementKind::Key { letter, rel_x: x, rel_y: y }),
        el.x == x && el.y == y,
        el.look@.len() == 3,
        forall|i: int| 0 <= i < 3 ==> (#[trigger] el.look@[i]@).len() == 3,
        forall|i: int, j: int|
            0 <= i < 3 && 0 <= j < 3 ==> #[trigger] el.look@[i]@[j]@ == key_cell(letter, i, j),
{
    Element { kind: ElementKind::Key { letter, rel_x: x, rel_y: y }, x, y, look: key_box(letter) }
}

/// The best status of a letter over the committed rows.
pub fn best_status(state: &AppState, letter: char) -> (r: u8)
    requires
        wf(*state),
    ensures
        r == key_status(*state, letter, state.in_play as int),
{
    let mut status: u8 = 0;
    let mut r: usize = 0;
    while r < state.in_play
        invariant
            r <= state.in_play <= 6,
            wf(*state),
            status == key_status(*state, letter, r as int),
        decreases state.in_play - r,
    {
        let mut i: usize = 0;
        let mut row_status: u8 = 0;
        while i < 5
            invariant
                i <= 5,
                r < 6,
                wf(*state),
                row_status == key_status_row(*state, letter, r as int, i as int),
            decreases 5 - i,
        {
            let cur: u8 = if state.status[r][i] == letter {
                proof {
                    assert(board_views(*state)[r as int] == state.status@[r as int]@);
                }
                get_letter_status(i, &state.status[r], &state.answer)
            } else {
                0
            };
            if cur > row_status {
                row_status = cur;
            }
            i += 1;
        }
        if row_status > status {
            status = row_status;
        }
        r += 1;
    }
    status
}

/// Recolours the key from the board: used letters carry their best status
/// as background, unused ones show the bare box.
pub fn on_state(
    el: &mut Element,
    state: &AppState,
    letter: char,
    rel_x: u16,
    rel_y: u16,
    cols: u16,
    rows: u16,
) -> (draw: bool)
    requires
        wf(*state),
        rel_x <= 80,
        rel_y <= 24,
    ensures
        final(el).kind == old(el).kind,
        final(el).look@.len() == 3,
        forall|i: int| 0 <= i < 3 ==> (#[trigger] final(el).look@[i]@).len() == 3,
        forall|i: int, j: int|
            0 <= i < 3 && 0 <= j < 3 ==> #[trigger] final(el).look@[i]@[j]@ == (
            if state.used@.contains(letter) {
                styled_bg(key_status(*state, letter, state.in_play as int), key_cell(letter, i, j))
            } else {
                key_cell(letter, i, j)
            }),
        final(el).x == state.app_x + rel_x,
        final(el).y == state.app_y + rel_y,
        draw == spec_fits(cols, rows),
{
    let bare = key_box(letter);
    if crate::score::contains_char(&state.used, letter) {
        let status = best_status(state, letter);
        el.look = set_background_look(status, &bare);
    } else {
        el.look = bare;
    }
    el.x = state.app_x + rel_x;
    el.y = state.app_y + rel_y;
    crate::element::fits(cols, rows)
}

/// A click on the key types its letter.
pub fn on_click(
    el: &Element,
    state: &mut AppState,
    letter: char,
    x: u16,
    y: u16,
    play_words: &Vec<Vec<char>>,
    valid_words: &Vec<Vec<char>>,
)
    requires
        wf(*old(state)),
        wf_words(views(play_words@)),
        wf_words(views(valid_words@)),
        play_words@.len() > 0,
    ensures
        wf(*final(state)),
        spec_mouse_over(*el, x, y) ==> input_letter_rel(
            *old(state),
            *final(state),
            seq![letter],
            views(play_words@),
            views(valid_words@),
        ),
        !spec_mouse_over(*el, x, y) ==> *final(state) == *old(state),
{
    if mouse_over(el, x, y) {
        let key = crate::element::cell(letter);
        input_letter(state, key.as_str(), play_words, valid_words);
    }
}

/// The keyboard's offset inside the window.
pub const KEYBOARD_X: u16 = 40;

pub const KEYBOARD_Y: u16 = 13;

/// The QWERTY line a key of the flattened list sits on.
pub open spec fn key_line(k: int) -> int {
    if k < 10 {
        0
    } else if k < 19 {
        1
    } else {
        2
    }
}

/// The key's position within its line.
pub open spec fn key_index(k: int) -> int {
    k - (if k < 10 {
        0int
    } else if k < 19 {
        10int
    } else {
        19int
    })
}

/// The letter of the `k`-th key of the flattened QWERTY rows.
pub open spec fn key_letter(k: int) -> char {
    if k < 10 {
        "QWERTYUIOP"@[k]
    } else if k < 19 {
        "ASDFGHJKL"@[k - 10]
    } else {
        "ZXCVBNM"@[k - 19]
    }
}

/// The key's horizontal offset inside the window.
pub open spec fn key_x(k: int) -> int {
    40 + 2 * key_line(k) + key_line(k) / 2 + 3 * key_index(k)
}

/// The key's vertical offset inside the window.
pub open spec fn key_y(k: int) -> int {
    13 + 3 * key_line(k)
}

/// Appends one QWERTY line of keys, at the layout's row-specific offsets.
fn push_line(kb: &mut Vec<Element>, keys: &str, line: u16)
    requires
        line < 3,
        keys@.len() <= 10,
    ensures
        final(kb)@.len() == old(kb)@.len() + keys@.len(),
        forall|k: int|
            0 <= k < old(kb)@.len() ==> #[trigger] final(kb)@[k] == old(kb)@[k],
        forall|k: int|
            old(kb)@.len() <= k < final(kb)@.len() ==> (#[trigger] final(kb)@[k]).kind == (
            ElementKind::Key {
                letter: keys@[k - old(kb)@.len()],
                rel_x: (40 + 2 * line + line / 2 + 3 * (k - old(kb)@.len())) as u16,
                rel_y: (13 + 3 * line) as u16,
            }),
{
    let len = keys.unicode_len();
    let mut idx: usize = 0;
    while idx < len
        invariant
            idx <= len,
            line < 3,
            len == keys@.len(),
            len <= 10,
            kb@.len() == old(kb)@.len() + idx,
            forall|k: int| 0 <= k < old(kb)@.len() ==> #[trigger] kb@[k] == old(kb)@[k],
            forall|k: int|
                old(kb)@.len() <= k < kb@.len() ==> (#[trigger] kb@[k]).kind == (ElementKind::Key {
                    letter: keys@[k - old(kb)@.len()],
                    rel_x: (40 + 2 * line + line / 2 + 3 * (k - old(kb)@.len())) as u16,
                    rel_y: (13 + 3 * line) as u16,
                }),
        decreases len - idx,
    {
        let x = KEYBOARD_X + line * 2 + (line / 2) + (idx as u16) * 3;
        let y = KEYBOARD_Y + line * 3;
        kb.push(create_key(x, y, keys.get_char(idx)));
        idx += 1;
    }
}

/// The QWERTY rows, as the key list the screen builder flattens: the `k`-th
/// element is the key for `key_letter(k)` at offset `(key_x(k), key_y(k))`.
pub fn build() -> (kb: Vec<Element>)
    ensures
        kb@.len() == 26,
        forall|k: int|
            0 <= k < 26 ==> (#[trigger] kb@[k]).kind == (ElementKind::Key {
                letter: key_letter(k),
                rel_x: key_x(k) as u16,
                rel_y: key_y(k) as u16,
            }),
{
    proof {
        reveal_strlit("QWERTYUIOP");
        reveal_strlit("ASDFGHJKL");
        reveal_strlit("ZXCVBNM");
    }
    let mut kb: Vec<Element> = Vec::new();
    push_line(&mut kb, "QWERTYUIOP", 0);
    let ghost kb1 = kb@;
    push_line(&mut kb, "ASDFGHJKL", 1);
    let ghost kb2 = kb@;
    push_line(&mut kb, "ZXCVBNM", 2);
    proof {
        assert forall|k: int| 0 <= k < 26 implies (#[trigger] kb@[k]).kind == (ElementKind::Key {
            letter: key_letter(k),
            rel_x: key_x(k) as u16,
            rel_y: key_y(k) as u16,
        }) by {
            if k < 10 {
                assert(kb@[k] == kb1[k]);
                assert(kb1[k].kind == (ElementKind::Key {
                    letter: "QWERTYUIOP"@[k - 0],
                    rel_x: (40 + 2 * 0 + 0int / 2 + 3 * (k - 0)) as u16,
                    rel_y: (13 + 3 * 0) as u16,
                }));
            } else if k < 19 {
                assert(kb@[k] == kb2[k]);
                assert(kb2[k].kind == (ElementKind::Key {
                    letter: "ASDFGHJKL"@[k - 10],
                    rel_x: (40 + 2 * 1 + 1int / 2 + 3 * (k - 10)) as u16,
                    rel_y: (13 + 3 * 1) as u16,
                }));
            } else {
                assert(kb@[k].kind == (ElementKind::Key {
                    letter: "ZXCVBNM"@[k - 19],
                    rel_x: (40 + 2 * 2 + 2int / 2 + 3 * (k - 19)) as u16,
                    rel_y: (13 + 3 * 2) as u16,
                }));
            }
        }
    }
    kb
}

} // verus!
