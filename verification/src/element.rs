//! The visual element model: a position, a look (a grid of styled cells)
//! and a kind that selects the element's hooks, together with the viewport
//! arithmetic and the pointer test the click hooks share.

use vstd::prelude::*;

verus! {

/// Width of the game window.
pub const APP_WIDTH: u16 = 80;

/// Height of the game window.
pub const APP_HEIGHT: u16 = 24;

#[derive(Clone, Copy, PartialEq, Eq, Structural)]
pub enum ElementKind {
    /// Invisible; recomputes the viewport origin each tick.
    Screen,
    /// The "enlarge terminal" notice shown when the terminal is too small.
    CenteredModal,
    /// The inverse-video top row.
    TitleBar,
    /// The underlined `Exit` label in the top-right corner.
    ButtonExit,
    /// The underlined `Next` label shown when the word is over.
    ButtonNext,
    /// The six-by-five grid of letter boxes.
    Board,
    /// The enter key below the keyboard.
    EnterKey,
    /// The delete key below the keyboard.
    DeleteKey,
    /// One on-screen keyboard key.
    Key { letter: char, rel_x: u16, rel_y: u16 },
    /// The `Wordle #n` line above the statistics.
    Answer,
    /// The played/percentage/streak figures.
    Results,
    /// One bar of the win distribution graph.
    Graph { index: usize },
}

/// A visual element: where it sits, what it shows, and which hooks it runs.
pub struct Element {
    pub kind: ElementKind,
    pub x: u16,
    pub y: u16,
    pub look: Vec<Vec<String>>,
}

/// One terminal event, as the host hands it over.
pub enum Event {
    Key { key: String, modifiers: Vec<String> },
    Click { x: u16, y: u16 },
    Resize,
}

/// The horizontal viewport origin: the window is centered, pinned at zero
/// when the terminal is narrower than the window.
pub open spec fn spec_origin_x(cols: u16) -> u16 {
    if cols >= 80 {
        (((cols - 80) as u16) / 2) as u16
    } else {
        0
    }
}

/// The vertical viewport origin.
pub open spec fn spec_origin_y(rows: u16) -> u16 {
    if rows >= 24 {
        (((rows - 24) as u16) / 2) as u16
    } else {
        0
    }
}

/// Whether the window fits the terminal at all; nothing is drawn otherwise.
pub open spec fn spec_fits(cols: u16, rows: u16) -> bool {
    cols >= 80 && rows >= 24
}

/// The absolute column of a point of the window.
pub fn dynamic_x(cols: u16, relative_x: u16) -> (r: u16)
    requires
        relative_x <= 80,
    ensures
        r == spec_origin_x(cols) + relative_x,
{
    let base = cols.saturating_sub(APP_WIDTH) / 2;
    base + relative_x
}

/// The absolute row of a point of the window.
pub fn dynamic_y(cols_rows: u16, relative_y: u16) -> (r: u16)
    requires
        relative_y <= 24,
    ensures
        r == spec_origin_y(cols_rows) + relative_y,
{
    let base = cols_rows.saturating_sub(APP_HEIGHT) / 2;
    base + relative_y
}

/// Whether drawing is allowed at this terminal size.
pub fn fits(cols: u16, rows: u16) -> (r: bool)
    ensures
        r == spec_fits(cols, rows),
{
    cols >= APP_WIDTH && rows >= APP_HEIGHT
}

/// A point lies inside the rectangle an element's look covers.
pub open spec fn spec_mouse_over(el: Element, x: u16, y: u16) -> bool {
    let height = el.look@.len();
    let width = if height > 0 {
        el.look@[0]@.len()
    } else {
        0
    };
    el.x <= x && (x - el.x) < width && el.y <= y && (y - el.y) < height
}

/// Whether a click at `(x, y)` lands on the element.
pub fn mouse_over(el: &Element, x: u16, y: u16) -> (r: bool)
    ensures
        r == spec_mouse_over(*el, x, y),
{
    let height = el.look.len();
    let width = if height > 0 {
        el.look[0].len()
    } else {
        0
    };
    x >= el.x && ((x - el.x) as usize) < width && y >= el.y && ((y - el.y) as usize) < height
}

/// A single styled cell holding one character.
pub fn cell(c: char) -> (s: String)
    ensures
        s@ == seq![c],
{
    let mut s = String::new();
    push_char(&mut s, c);
    proof {
        assert(s@ =~= seq![c]);
    }
    s
}

/// Relies on String::push: it appends exactly the one character.
#[verifier::external_body]
pub fn push_char(s: &mut String, c: char)
    ensures
        final(s)@ == old(s)@ + seq![c],
{
    s.push(c);
}

/// Appends the decimal rendering of `n` to a string.
pub fn push_u32(s: &mut String, n: u32)
    ensures
        final(s)@ == old(s)@ + crate::text::dec_rep(n as int),
    decreases n,
{
    if n < 10 {
        push_char(s, crate::text::digit_char_of(n));
        proof {
            assert(s@ =~= old(s)@ + crate::text::dec_rep(n as int));
        }
    } else {
        push_u32(s, n / 10);
        push_char(s, crate::text::digit_char_of(n % 10));
        proof {
            assert(s@ =~= old(s)@ + crate::text::dec_rep(n as int));
        }
    }
}

/// Appends the decimal rendering of a wide counter to a string.
pub fn push_u64(s: &mut String, n: u64)
    ensures
        final(s)@ == old(s)@ + crate::text::dec_rep(n as int),
    decreases n,
{
    if n < 10 {
        push_char(s, crate::text::digit_char_of(n as u32));
        proof {
            assert(s@ =~= old(s)@ + crate::text::dec_rep(n as int));
        }
    } else {
        push_u64(s, n / 10);
        push_char(s, crate::text::digit_char_of((n % 10) as u32));
        proof {
            assert(s@ =~= old(s)@ + crate::text::dec_rep(n as int));
        }
    }
}

/// One animation frame: the look to draw and the pause that follows it.
pub struct Frame {
    pub look: Vec<Vec<String>>,
    pub delay_ms: u32,
}

/// A fresh copy of a row of styled cells.
pub fn copy_cells(row: &Vec<String>) -> (r: Vec<String>)
    ensures
        r@ == row@,
{
    let mut out: Vec<String> = Vec::new();
    let mut j: usize = 0;
    while j < row.len()
        invariant
            j <= row@.len(),
            out@ == row@.subrange(0, j as int),
        decreases row@.len() - j,
    {
        out.push(row[j].clone());
        proof {
            assert(out@ =~= row@.subrange(0, j + 1));
        }
        j += 1;
    }
    proof {
        assert(out@ =~= row@);
    }
    out
}

/// A fresh copy of a whole look.
pub fn copy_look(look: &Vec<Vec<String>>) -> (r: Vec<Vec<String>>)
    ensures
        r@.len() == look@.len(),
        forall|i: int| 0 <= i < look@.len() ==> #[trigger] r@[i]@ == look@[i]@,
{
    let mut out: Vec<Vec<String>> = Vec::new();
    let mut i: usize = 0;
    while i < look.len()
        invariant
            i <= look@.len(),
            out@.len() == i,
            forall|p: int| 0 <= p < i ==> #[trigger] out@[p]@ == look@[p]@,
        decreases look@.len() - i,
    {
        out.push(copy_cells(&look[i]));
        i += 1;
    }
    out
}

/// A fresh copy of an element.
pub fn copy_element(el: &Element) -> (r: Element)
    ensures
        r.kind == el.kind,
        r.x == el.x,
        r.y == el.y,
        r.look@.len() == el.look@.len(),
        forall|i: int| 0 <= i < el.look@.len() ==> #[trigger] r.look@[i]@ == el.look@[i]@,
{
    Element { kind: el.kind, x: el.x, y: el.y, look: copy_look(&el.look) }
}

} // verus!
