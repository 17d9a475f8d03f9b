//! The title bar: the top terminal row in inverse video, holding the game's
//! name padded to the full width.

use vstd::prelude::*;

use crate::element::{push_char, Element, ElementKind};
use crate::style::{inverse, spec_inverse};

verus! {

/// The bare title line: the name, padded with blanks to the width (never
/// truncated below its own length).
pub open spec fn title_line(cols: int) -> Seq<char> {
    "Rusty Wordle"@ + Seq::new(if cols >= 12 { (cols - 12) as nat } else { 0nat }, |k: int| ' ')
}

pub fn build() -> (el: Element)
    ensures
        el.kind == ElementKind::TitleBar,
        el.x == 0 && el.y == 0,
        el.look@.len() == 0,
{
    Element { kind: ElementKind::TitleBar, x: 0, y: 0, look: Vec::new() }
}

/// Rebuilds the single inverse-video cell from the terminal width; the bar
/// is drawn whatever the terminal size.
pub fn on_state(el: &mut Element, cols: u16) -> (draw: bool)
    ensures
        final(el).kind == old(el).kind,
        final(el).x == 0 && final(el).y == 0,
        final(el).look@.len() == 1,
        final(el).look@[0]@.len() == 1,
        final(el).look@[0]@[0]@ == spec_inverse(title_line(cols as int)),
        draw,
{
    let mut line = String::new();
    proof {
        reveal_strlit("Rusty Wordle");
        reveal_strlit("R");
        reveal_strlit("u");
        reveal_strlit("s");
        reveal_strlit("t");
        reveal_strlit("y");
        reveal_strlit(" ");
        reveal_strlit("W");
        reveal_strlit("o");
        reveal_strlit("r");
        reveal_strlit("d");
        reveal_strlit("l");
        reveal_strlit("e");
    }
    line.append("Rusty Wordle");
    let mut k: usize = 12;
    while k < cols as usize
        invariant
            12 <= k,
            k <= if cols >= 12 {
                cols as int
            } else {
                12int
            },
            line@ == "Rusty Wordle"@ + Seq::new((k - 12) as nat, |q: int| ' '),
        decreases cols as int - k,
    {
        push_char(&mut line, ' ');
        proof {
            assert(line@ =~= "Rusty Wordle"@ + Seq::new((k - 11) as nat, |q: int| ' '));
        }
        k += 1;
    }
    let mut row: Vec<String> = Vec::new();
    row.push(inverse(line.as_str()));
    let mut look: Vec<Vec<String>> = Vec::new();
    look.push(row);
    el.look = look;
    el.x = 0;
    el.y = 0;
    true
}

} // verus!
