//! The "enlarge terminal" notice: a full-screen blank grid with the message
//! centered, shown only while the terminal is smaller than the window.

use vstd::prelude::*;

use crate::element::{cell, spec_fits, Element, ElementKind};

verus! {

/// Where the message starts on its row.
pub open spec fn modal_point(cols: int) -> int {
    if cols / 2 >= 12 {
        cols / 2 - 12
    } else {
        0
    }
}

/// One cell of the modal grid: a message character on the middle row, a
/// blank everywhere else.
pub open spec fn modal_cell(cols: int, rows: int, i: int, j: int) -> Seq<char> {
    let msg = "Enlarge Terminal Window"@;
    let point = modal_point(cols);
    if i == rows / 2 && point <= j < point + 23 && j < cols {
        seq![msg[j - point]]
    } else {
        seq![' ']
    }
}

pub fn build() -> (el: Element)
    ensures
        el.kind == ElementKind::CenteredModal,
        el.x == 0 && el.y == 0,
{
    let mut row: Vec<String> = Vec::new();
    row.push(String::new());
    let mut look: Vec<Vec<String>> = Vec::new();
    look.push(row);
    Element { kind: ElementKind::CenteredModal, x: 0, y: 0, look }
}

/// Shows the notice while the terminal is too small; otherwise collapses to
/// a single empty cell. Drawn whatever the size.
pub fn on_state(el: &mut Element, cols: u16, rows: u16) -> (draw: bool)
    ensures
        final(el).kind == old(el).kind,
        final(el).x == 0 && final(el).y == 0,
        !spec_fits(cols, rows) ==> {
            &&& final(el).look@.len() == rows as int
            &&& (forall|i: int|
                0 <= i < rows as int ==> (#[trigger] final(el).look@[i]@).len() == cols as int)
            &&& (forall|i: int, j: int|
                0 <= i < rows as int && 0 <= j < cols as int ==> #[trigger] final(el).look@[i]@[j]@
                    == modal_cell(cols as int, rows as int, i, j))
        },
        spec_fits(cols, rows) ==> final(el).look@.len() == 1 && final(el).look@[0]@.len() == 1
            && final(el).look@[0]@[0]@ == Seq::<char>::empty(),
        draw,
{
    el.x = 0;
    el.y = 0;
    if cols < 80 || rows < 24 {
        proof {
            reveal_strlit("Enlarge Terminal Window");
        }
        let msg = "Enlarge Terminal Window";
        let half = (cols / 2) as usize;
        let point: usize = if half >= 12 {
            half - 12
        } else {
            0
        };
        let mid = (rows / 2) as usize;
        let mut look: Vec<Vec<String>> = Vec::new();
        let mut i: usize = 0;
        while i < rows as usize
            invariant
                i <= rows as int,
                point == modal_point(cols as int),
                mid == rows as int / 2,
                msg@ == "Enlarge Terminal Window"@,
                msg@.len() == 23,
                look@.len() == i,
                forall|p: int|
                    0 <= p < i ==> (#[trigger] look@[p]@).len() == cols as int,
                forall|p: int, q: int|
                    0 <= p < i && 0 <= q < cols as int ==> #[trigger] look@[p]@[q]@ == modal_cell(
                        cols as int,
                        rows as int,
                        p,
                        q,
                    ),
            decreases rows as int - i,
        {
            let mut row: Vec<String> = Vec::new();
            let mut j: usize = 0;
            while j < cols as usize
                invariant
                    j <= cols as int,
                    i < rows as int,
                    point == modal_point(cols as int),
                    mid == rows as int / 2,
                    msg@ == "Enlarge Terminal Window"@,
                    msg@.len() == 23,
                    row@.len() == j,
                    forall|q: int|
                        0 <= q < j ==> #[trigger] row@[q]@ == modal_cell(
                            cols as int,
                            rows as int,
                            i as int,
                            q,
                        ),
                decreases cols as int - j,
            {
                if i == mid && point <= j && j < point + 23 {
                    row.push(cell(msg.get_char(j - point)));
                } else {
                    row.push(cell(' '));
                }
                j += 1;
            }
            look.push(row);
            i += 1;
        }
        el.look = look;
    } else {
        let mut row: Vec<String> = Vec::new();
        row.push(String::new());
        let mut look: Vec<Vec<String>> = Vec::new();
        look.push(row);
        el.look = look;
    }
    true
}

} // verus!
