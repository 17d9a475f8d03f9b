//! Styling of cells: background colours for letter statuses, inverse video
//! and underline, as ANSI escape sequences around the text.

use vstd::prelude::*;

verus! {

/// The SGR reset that closes every styled run.
pub open spec fn sgr_reset() -> Seq<char> {
    "\u{1b}[0m"@
}

/// The background-colour prefix for an ANSI palette entry, as the styling
/// library renders it: palette colour 2 is green, 3 olive, 8 grey.
pub open spec fn bg_prefix(code: u8) -> Seq<char> {
    if code == 2 {
        "\u{1b}[48;2;0;127;0m"@
    } else if code == 3 {
        "\u{1b}[48;2;127;127;0m"@
    } else {
        "\u{1b}[48;2;127;127;127m"@
    }
}

/// The palette entry for a letter status: `EXACT` is green, `EXISTS` yellow,
/// `ABSENT` grey.
pub open spec fn spec_ansi_code(status: u8) -> u8 {
    if status == 2 {
        2
    } else if status == 1 {
        3
    } else {
        8
    }
}

/// A cell styled with the background of a letter status.
pub open spec fn styled_bg(status: u8, s: Seq<char>) -> Seq<char> {
    bg_prefix(spec_ansi_code(status)) + s + sgr_reset()
}

/// A cell in inverse video.
pub open spec fn spec_inverse(s: Seq<char>) -> Seq<char> {
    "\u{1b}[7m"@ + s + sgr_reset()
}

/// An underlined cell.
pub open spec fn spec_underline(s: Seq<char>) -> Seq<char> {
    "\u{1b}[4m"@ + s + sgr_reset()
}

/// Relies on terminal_style::format::background: a `u8` colour input is
/// looked up in the ANSI palette (2 maps to rgb 0,127,0; 3 to 127,127,0;
/// 8 to 127,127,127) and never fails, and the text is wrapped in the 24-bit
/// background sequence for that colour and the SGR reset.
#[verifier::external_body]
fn background_str(code: u8, item: &str) -> (r: String)
    requires
        code == 2 || code == 3 || code == 8,
    ensures
        r@ == bg_prefix(code) + item@ + sgr_reset(),
{
    terminal_style::format::background(code, item).unwrap()
}

/// Relies on terminal_style::format::inverse: the text is wrapped in the
/// inverse-video sequence and the SGR reset.
#[verifier::external_body]
pub fn inverse(item: &str) -> (r: String)
    ensures
        r@ == spec_inverse(item@),
{
    terminal_style::format::inverse(item)
}

/// Relies on terminal_style::format::underline: the text is wrapped in the
/// underline sequence and the SGR reset.
#[verifier::external_body]
pub fn underline(item: &str) -> (r: String)
    ensures
        r@ == spec_underline(item@),
{
    terminal_style::format::underline(item)
}

/// The palette entry for a letter status.
pub fn status_to_ansi(status: u8) -> (r: u8)
    ensures
        r == spec_ansi_code(status),
{
    match status {
        2 => 2,
        1 => 3,
        _ => 8,
    }
}

/// Styles one cell with the background colour of a letter status.
pub fn set_background(letter_status: u8, item: &str) -> (r: String)
    ensures
        r@ == styled_bg(letter_status, item@),
{
    background_str(status_to_ansi(letter_status), item)
}

/// The rows of styled cells as plain character sequences.
pub open spec fn cell_views(row: Seq<String>) -> Seq<Seq<char>> {
    row.map_values(|c: String| c@)
}

/// A whole look as plain character sequences, row by row.
pub open spec fn look_views(look: Seq<Vec<String>>) -> Seq<Seq<Seq<char>>> {
    look.map_values(|r: Vec<String>| cell_views(r@))
}

/// Styles every cell of a look with the background colour of a letter
/// status.
pub fn set_background_look(letter_status: u8, item: &Vec<Vec<String>>) -> (r: Vec<Vec<String>>)
    ensures
        r@.len() == item@.len(),
        forall|i: int| 0 <= i < item@.len() ==> #[trigger] r@[i]@.len() == item@[i]@.len(),
        forall|i: int, j: int|
            0 <= i < item@.len() && 0 <= j < item@[i]@.len() ==> #[trigger] r@[i]@[j]@ == styled_bg(
                letter_status,
                item@[i]@[j]@,
            ),
{
    let mut out: Vec<Vec<String>> = Vec::new();
    let mut i: usize = 0;
    while i < item.len()
        invariant
            i <= item@.len(),
            out@.len() == i,
            forall|p: int| 0 <= p < i ==> #[trigger] out@[p]@.len() == item@[p]@.len(),
            forall|p: int, q: int|
                0 <= p < i && 0 <= q < item@[p]@.len() ==> #[trigger] out@[p]@[q]@ == styled_bg(
                    letter_status,
                    item@[p]@[q]@,
                ),
        decreases item@.len() - i,
    {
        let row = &item[i];
        let mut new_row: Vec<String> = Vec::new();
        let mut j: usize = 0;
        while j < row.len()
            invariant
                j <= row@.len(),
                new_row@.len() == j,
                forall|q: int|
                    0 <= q < j ==> #[trigger] new_row@[q]@ == styled_bg(
                        letter_status,
                        row@[q]@,
                    ),
            decreases row@.len() - j,
        {
            new_row.push(set_background(letter_status, row[j].as_str()));
            j += 1;
        }
        out.push(new_row);
        i += 1;
    }
    out
}

} // verus!
