//! The exit button: an underlined label in the top-right corner. A click on
//! it, or Ctrl-C, raises the exit flag the host loop checks each tick.

use vstd::prelude::*;

use crate::element::{mouse_over, spec_mouse_over, Element, ElementKind};
use crate::game::{str_eq, wf, AppState};
use crate::style::{spec_underline, underline};

verus! {

pub fn build() -> (el: Element)
    ensures
        el.kind == ElementKind::ButtonExit,
        el.x == 0 && el.y == 0,
        el.look@.len() == 1,
        el.look@[0]@.len() == 1,
        el.look@[0]@[0]@ == spec_underline("Exit"@),
{
    let mut row: Vec<String> = Vec::new();
    row.push(underline("Exit"));
    let mut look: Vec<Vec<String>> = Vec::new();
    look.push(row);
    Element { kind: ElementKind::ButtonExit, x: 0, y: 0, look }
}

/// Whether the modifier list names the control key.
pub fn has_ctrl(modifiers: &Vec<String>) -> (r: bool)
    ensures
        r == exists|m: int| 0 <= m < modifiers@.len() && (#[trigger] modifiers@[m])@ == "ctrl"@,
{
    let mut m: usize = 0;
    while m < modifiers.len()
        invariant
            m <= modifiers@.len(),
            forall|q: int| 0 <= q < m ==> (#[trigger] modifiers@[q])@ != "ctrl"@,
        decreases modifiers@.len() - m,
    {
        if str_eq(modifiers[m].as_str(), "ctrl") {
            assert(modifiers@[m as int]@ == "ctrl"@);
            return true;
        }
        m += 1;
    }
    false
}

/// Ctrl-C raises the exit flag; every other key leaves the state alone.
pub fn on_keypress(state: &mut AppState, key: &str, modifiers: &Vec<String>)
    ensures
        *final(state) == (AppState { exit_flag: final(state).exit_flag, ..*old(state) }),
        final(state).exit_flag == (old(state).exit_flag || (key@ == "c"@ && exists|m: int|
            0 <= m < modifiers@.len() && (#[trigger] modifiers@[m])@ == "ctrl"@)),
{
    if str_eq(key, "c") && has_ctrl(modifiers) {
        state.exit_flag = true;
    }
}

/// A click on the label raises the exit flag.
pub fn on_click(el: &Element, state: &mut AppState, x: u16, y: u16)
    ensures
        *final(state) == (AppState { exit_flag: final(state).exit_flag, ..*old(state) }),
        final(state).exit_flag == (old(state).exit_flag || spec_mouse_over(*el, x, y)),
{
    if mouse_over(el, x, y) {
        state.exit_flag = true;
    }
}

/// Pins the label to the top-right corner; drawn whatever the size.
pub fn on_state(el: &mut Element, cols: u16) -> (draw: bool)
    ensures
        final(el).kind == old(el).kind,
        final(el).look@ == old(el).look@,
        final(el).y == old(el).y,
        final(el).x == (if cols >= 4 {
            (cols - 4) as u16
        } else {
            0u16
        }),
        draw,
{
    el.x = cols.saturating_sub(4);
    true
}

} // verus!
