//! The statistics figures: games played, the rounded win percentage, and
//! the current and maximum streaks.

use vstd::prelude::*;

use crate::element::{push_u64, spec_fits, Element, ElementKind};
use crate::game::{sum_results, wf, AppState};
use crate::text::dec_rep;

verus! {

pub const RESULTS_X: u16 = 40;

pub const RESULTS_Y: u16 = 4;

/// Total words played: the sum of the seven counters.
pub open spec fn played_total(s: AppState) -> int {
    sum_results(s.results@, 7)
}

/// The win percentage, rounded half up; zero before any game.
pub open spec fn win_percent(s: AppState) -> int {
    let total = played_total(s);
    let wins = total - s.results@[6];
    if total > 0 {
        (200 * wins + total) / (2 * total)
    } else {
        0
    }
}

/// The four lines of the results element.
pub open spec fn results_line(s: AppState, i: int) -> Seq<char> {
    if i == 0 {
        "Played: "@ + dec_rep(played_total(s))
    } else if i == 1 {
        "Win %: "@ + dec_rep(win_percent(s))
    } else if i == 2 {
        "Streak: "@ + dec_rep(s.streak.0 as int) + "  "@
    } else {
        "Max Streak: "@ + dec_rep(s.streak.1 as int)
    }
}

pub fn build() -> (el: Element)
    ensures
        el.kind == ElementKind::Results,
        el.x == 0 && el.y == 0,
        el.look@.len() == 0,
{
    Element { kind: ElementKind::Results, x: 0, y: 0, look: Vec::new() }
}

/// Every counter is bounded, so the total fits far below the limit.
proof fn lemma_sum_bound(rs: Seq<u32>, n: int)
    requires
        0 <= n <= rs.len(),
    ensures
        0 <= sum_results(rs, n) <= n * 0x1_0000_0000,
    decreases n,
{
    if n > 0 {
        lemma_sum_bound(rs, n - 1);
        assert((n - 1) * 0x1_0000_0000 + 0x1_0000_0000 == n * 0x1_0000_0000) by (nonlinear_arith);
    }
}

/// The losses counter never exceeds the total.
proof fn lemma_losses_in_sum(rs: Seq<u32>)
    requires
        rs.len() == 7,
    ensures
        sum_results(rs, 7) >= rs[6],
{
    lemma_sum_bound(rs, 6);
}

/// Rebuilds the four figures from the counters and the streak.
pub fn on_state(el: &mut Element, state: &AppState, cols: u16, rows: u16) -> (draw: bool)
    requires
        wf(*state),
    ensures
        final(el).kind == old(el).kind,
        final(el).look@.len() == 4,
        forall|i: int| 0 <= i < 4 ==> (#[trigger] final(el).look@[i]@).len() == 1,
        forall|i: int|
            0 <= i < 4 ==> #[trigger] final(el).look@[i]@[0]@ == results_line(*state, i),
        final(el).x == state.app_x + RESULTS_X,
        final(el).y == state.app_y + RESULTS_Y,
        draw == spec_fits(cols, rows),
{
    let mut total: u64 = 0;
    let mut i: usize = 0;
    while i < 7
        invariant
            i <= 7,
            state.results@.len() == 7,
            total == sum_results(state.results@, i as int),
            total <= i * 0x1_0000_0000,
        decreases 7 - i,
    {
        proof {
            assert((i as int) * 0x1_0000_0000 + 0x1_0000_0000 == (i + 1) * 0x1_0000_0000)
                by (nonlinear_arith);
        }
        total = total + state.results[i] as u64;
        i += 1;
    }
    proof {
        lemma_losses_in_sum(state.results@);
    }
    let losses = state.results[6] as u64;
    let pct: u64 = if total > 0 {
        (200 * (total - losses) + total) / (2 * total)
    } else {
        0
    };

    let mut l0 = String::new();
    l0.append("Played: ");
    push_u64(&mut l0, total);
    proof {
        assert(l0@ =~= results_line(*state, 0));
    }
    let mut l1 = String::new();
    l1.append("Win %: ");
    push_u64(&mut l1, pct);
    proof {
        assert(l1@ =~= results_line(*state, 1));
    }
    let mut l2 = String::new();
    l2.append("Streak: ");
    push_u64(&mut l2, state.streak.0 as u64);
    l2.append("  ");
    proof {
        assert(l2@ =~= results_line(*state, 2));
    }
    let mut l3 = String::new();
    l3.append("Max Streak: ");
    push_u64(&mut l3, state.streak.1 as u64);
    proof {
        assert(l3@ =~= results_line(*state, 3));
    }

    let mut look: Vec<Vec<String>> = Vec::new();
    let mut row: Vec<String> = Vec::new();
    row.push(l0);
    look.push(row);
    let mut row: Vec<String> = Vec::new();
    row.push(l1);
    look.push(row);
    let mut row: Vec<String> = Vec::new();
    row.push(l2);
    look.push(row);
    let mut row: Vec<String> = Vec::new();
    row.push(l3);
    look.push(row);
    el.look = look;
    el.x = state.app_x + RESULTS_X;
    el.y = state.app_y + RESULTS_Y;
    crate::element::fits(cols, rows)
}

} // verus!
