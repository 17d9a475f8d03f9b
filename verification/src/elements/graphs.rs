//! The win distribution: one bar per attempt, scaled against the best
//! attempt's count, with the count printed at the bar's end.

use vstd::prelude::*;

use crate::element::{push_char, push_u64, spec_fits, Element, ElementKind};
use crate::game::{wf, AppState};
use crate::style::{inverse, spec_inverse};
use crate::text::{dec_rep, digit_char};

verus! {

pub const GRAPHS_X: u16 = 57;

pub const GRAPHS_Y: u16 = 4;

/// The largest win counter among the first `n` attempts.
pub open spec fn max_results(s: AppState, n: int) -> int
    decreases n,
{
    if n <= 0 {
        0
    } else {
        let prev = max_results(s, n - 1);
        if s.results@[n - 1] > prev {
            s.results@[n - 1] as int
        } else {
            prev
        }
    }
}

/// A run of blanks.
pub open spec fn spaces(n: int) -> Seq<char> {
    Seq::new(if n >= 0 {
        n as nat
    } else {
        0nat
    }, |k: int| ' ')
}

/// The bar length for one attempt: its count scaled to ten cells against
/// the best attempt, rounded half up.
pub open spec fn bar_len(s: AppState, idx: int) -> int {
    let m = max_results(s, 6);
    if m > 0 {
        (20 * s.results@[idx] + m) / (2 * m)
    } else {
        0
    }
}

/// The single cell of bar `idx`: its label, the inverse-video bar, the
/// count, and padding out to eleven cells.
pub open spec fn bar_line(s: AppState, idx: int) -> Seq<char> {
    seq![digit_char(idx + 1)] + " "@ + spec_inverse(spaces(bar_len(s, idx))) + spec_inverse(
        dec_rep(s.results@[idx] as int),
    ) + spaces(11 - bar_len(s, idx))
}

/// The six bars, one per attempt.
pub fn build() -> (els: Vec<Element>)
    ensures
        els@.len() == 6,
        forall|k: int|
            0 <= k < 6 ==> (#[trigger] els@[k]).kind == (ElementKind::Graph { index: k as usize }),
{
    let mut els: Vec<Element> = Vec::new();
    let mut k: usize = 0;
    while k < 6
        invariant
            k <= 6,
            els@.len() == k,
            forall|q: int|
                0 <= q < k ==> (#[trigger] els@[q]).kind == (ElementKind::Graph {
                    index: q as usize,
                }),
        decreases 6 - k,
    {
        let mut row: Vec<String> = Vec::new();
        row.push(String::new());
        let mut look: Vec<Vec<String>> = Vec::new();
        look.push(row);
        els.push(Element { kind: ElementKind::Graph { index: k }, x: 0, y: 0, look });
        k += 1;
    }
    els
}

/// No bar outgrows its ten cells.
proof fn lemma_bar_len_bounds(s: AppState, idx: int)
    requires
        s.results@.len() == 7,
        0 <= idx < 6,
    ensures
        0 <= bar_len(s, idx) <= 10,
{
    let m = max_results(s, 6);
    lemma_max_bound(s, 6);
    if m > 0 {
        assert(s.results@[idx] <= m) by {
            lemma_max_covers(s, idx, 6);
        }
        assert(0 <= (20 * s.results@[idx] + m) / (2 * m) <= 10) by (nonlinear_arith)
            requires
                m > 0,
                0 <= s.results@[idx] <= m,
        {}
    }
}

/// The maximum is never negative.
proof fn lemma_max_bound(s: AppState, n: int)
    ensures
        max_results(s, n) >= 0,
    decreases n,
{
    if n > 0 {
        lemma_max_bound(s, n - 1);
    }
}

/// The maximum covers every counter below `n`.
proof fn lemma_max_covers(s: AppState, idx: int, n: int)
    requires
        0 <= idx < n,
    ensures
        s.results@[idx] <= max_results(s, n),
    decreases n,
{
    if idx < n - 1 {
        lemma_max_covers(s, idx, n - 1);
    }
}

/// Rebuilds one bar from the counters and places it in the bar column.
pub fn on_state(
    el: &mut Element,
    state: &AppState,
    idx: usize,
    cols: u16,
    rows: u16,
) -> (draw: bool)
    requires
        wf(*state),
        idx < 6,
    ensures
        final(el).kind == old(el).kind,
        final(el).look@.len() == 1,
        final(el).look@[0]@.len() == 1,
        final(el).look@[0]@[0]@ == bar_line(*state, idx as int),
        final(el).x == state.app_x + GRAPHS_X,
        final(el).y == state.app_y + GRAPHS_Y + idx,
        draw == spec_fits(cols, rows),
{
    let mut m: u64 = 0;
    let mut k: usize = 0;
    while k < 6
        invariant
            k <= 6,
            state.results@.len() == 7,
            m == max_results(*state, k as int),
            m <= 0xffff_ffff,
        decreases 6 - k,
    {
        if (state.results[k] as u64) > m {
            m = state.results[k] as u64;
        }
        k += 1;
    }
    let value = state.results[idx] as u64;
    proof {
        lemma_bar_len_bounds(*state, idx as int);
        lemma_max_covers(*state, idx as int, 6);
    }
    let len: u64 = if m > 0 {
        (20 * value + m) / (2 * m)
    } else {
        0
    };

    let mut bar = String::new();
    proof {
        assert(bar@ =~= spaces(0));
    }
    let mut q: u64 = 0;
    while q < len
        invariant
            q <= len,
            len == bar_len(*state, idx as int),
            0 <= len <= 10,
            bar@ == spaces(q as int),
        decreases len - q,
    {
        push_char(&mut bar, ' ');
        proof {
            assert(bar@ =~= spaces(q + 1));
        }
        q += 1;
    }
    let mut count = String::new();
    push_u64(&mut count, value);

    let mut line = String::new();
    push_char(&mut line, crate::text::digit_char_of((idx + 1) as u32));
    line.append(" ");
    let styled_bar = inverse(bar.as_str());
    line.append(styled_bar.as_str());
    let styled_count = inverse(count.as_str());
    line.append(styled_count.as_str());
    proof {
        assert(line@ =~= seq![digit_char(idx + 1)] + " "@ + spec_inverse(
            spaces(bar_len(*state, idx as int)),
        ) + spec_inverse(dec_rep(state.results@[idx as int] as int)) + spaces(0));
    }
    let mut q: u64 = 0;
    let pad: u64 = 11 - len;
    while q < pad
        invariant
            q <= pad,
            pad == 11 - bar_len(*state, idx as int),
            line@ == seq![digit_char(idx + 1)] + " "@ + spec_inverse(
                spaces(bar_len(*state, idx as int)),
            ) + spec_inverse(dec_rep(state.results@[idx as int] as int)) + spaces(q as int),
        decreases pad - q,
    {
        push_char(&mut line, ' ');
        proof {
            assert(line@ =~= seq![digit_char(idx + 1)] + " "@ + spec_inverse(
                spaces(bar_len(*state, idx as int)),
            ) + spec_inverse(dec_rep(state.results@[idx as int] as int)) + spaces(q + 1));
        }
        q += 1;
    }
    proof {
        assert(line@ =~= bar_line(*state, idx as int));
    }

    let mut row: Vec<String> = Vec::new();
    row.push(line);
    let mut look: Vec<Vec<String>> = Vec::new();
    look.push(row);
    el.look = look;
    el.x = state.app_x + GRAPHS_X;
    el.y = state.app_y + GRAPHS_Y + (idx as u16);
    crate::element::fits(cols, rows)
}

} // verus!
