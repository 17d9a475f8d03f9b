//! The invisible screen element: each tick it recomputes the viewport
//! origin from the terminal size, and asks the host to clear the screen
//! when the origin moved.

use vstd::prelude::*;

use crate::element::{dynamic_x, dynamic_y, Element, ElementKind, spec_origin_x, spec_origin_y};
use crate::game::{wf, AppState};

verus! {

pub fn build() -> (el: Element)
    ensures
        el.kind == ElementKind::Screen,
        el.look@.len() == 0,
{
    Element { kind: ElementKind::Screen, x: 0, y: 0, look: Vec::new() }
}

/// Recomputes the viewport origin; the result says whether the host must
/// clear the screen because the origin moved.
pub fn on_loop(state: &mut AppState, cols: u16, rows: u16) -> (clear: bool)
    requires
        wf(*old(state)),
    ensures
        wf(*final(state)),
        final(state).app_x == spec_origin_x(cols),
        final(state).app_y == spec_origin_y(rows),
        clear == (old(state).app_x != spec_origin_x(cols) || old(state).app_y != spec_origin_y(
            rows,
        )),
        final(state).game == old(state).game,
        final(state).word_index == old(state).word_index,
        final(state).answer@ == old(state).answer@,
        final(state).status@ == old(state).status@,
        final(state).in_play == old(state).in_play,
        final(state).used@ == old(state).used@,
        final(state).results@ == old(state).results@,
        final(state).streak == old(state).streak,
        final(state).exit_flag == old(state).exit_flag,
        final(state).word_status == old(state).word_status,
{
    let x = dynamic_x(cols, 0);
    let y = dynamic_y(rows, 0);
    if x != state.app_x || y != state.app_y {
        state.app_x = x;
        state.app_y = y;
        proof {
            assert(crate::game::board_views(*state) == crate::game::board_views(*old(state)));
            crate::game::lemma_used_preserved(*old(state), *state, state.in_play as int);
        }
        true
    } else {
        false
    }
}

} // verus!
