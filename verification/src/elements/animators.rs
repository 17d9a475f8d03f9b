//! The two board animations, as pure frame computations: the shake that
//! rejects an invalid word and the column-by-column reveal flip of an
//! accepted one. The host draws each frame and sleeps for its delay.

use vstd::prelude::*;

use crate::element::{cell, copy_cells, Frame};
use crate::score::{score_char, wf_answer, wordle_highlight};
use crate::style::{cell_views, look_views, set_background, styled_bg};

verus! {

/// The horizontal shake offsets, frame by frame; the last frame restores
/// the row.
pub open spec fn shake_offset(k: int) -> int {
    seq![1int, -2int, 2int, -2int, 1int, 0int][k]
}

/// One row shifted by `dx` cells: cells shifted off the end are dropped and
/// vacated cells keep their original content.
pub open spec fn spec_shake_row(row: Seq<Seq<char>>, dx: int) -> Seq<Seq<char>> {
    Seq::new(row.len(), |t: int| shake_cell(row, dx, t))
}

/// Cell `t` of a shifted row.
pub open spec fn shake_cell(row: Seq<Seq<char>>, dx: int, t: int) -> Seq<char> {
    if dx > 0 {
        if t >= dx {
            row[t - dx]
        } else {
            row[t]
        }
    } else if dx < 0 {
        if t < row.len() + dx {
            row[t - dx]
        } else {
            row[t]
        }
    } else {
        row[t]
    }
}

/// The whole look with the three rows of the current attempt shifted.
pub open spec fn shake_look_at(look0: Seq<Seq<Seq<char>>>, ip: int, k: int) -> Seq<Seq<Seq<char>>> {
    Seq::new(
        look0.len(),
        |i: int|
            if ip * 3 <= i < ip * 3 + 3 {
                spec_shake_row(look0[i], shake_offset(k))
            } else {
                look0[i]
            },
    )
}

/// Shifts one row of cells horizontally by `dx`.
fn shake_row(row: &Vec<String>, dx: i32) -> (r: Vec<String>)
    requires
        -2 <= dx <= 2,
    ensures
        cell_views(r@) == spec_shake_row(cell_views(row@), dx as int),
{
    let len = row.len();
    let mut out: Vec<String> = Vec::new();
    let mut t: usize = 0;
    while t < len
        invariant
            t <= len,
            len == row@.len(),
            -2 <= dx <= 2,
            out@.len() == t,
            forall|q: int|
                0 <= q < t ==> #[trigger] out@[q]@ == shake_cell(cell_views(row@), dx as int, q),
        decreases len - t,
    {
        let src: usize = if dx > 0 {
            let d = dx as usize;
            if t >= d {
                t - d
            } else {
                t
            }
        } else if dx < 0 {
            let d = (-dx) as usize;
            if d <= len && t < len - d {
                t + d
            } else {
                t
            }
        } else {
            t
        };
        out.push(row[src].clone());
        t += 1;
    }
    proof {
        assert(cell_views(out@) =~= spec_shake_row(cell_views(row@), dx as int));
    }
    out
}

/// The six frames of the invalid-word shake: the three rows of the current
/// attempt slide right and left and come to rest where they started.
pub fn invalid_word_frames(look: &Vec<Vec<String>>, in_play: usize) -> (frames: Vec<Frame>)
    requires
        in_play < 6,
        look@.len() == 18,
    ensures
        frames@.len() == 6,
        forall|k: int|
            0 <= k < 6 ==> (#[trigger] frames@[k]).delay_ms == 50 && look_views(frames@[k].look@)
                == shake_look_at(look_views(look@), in_play as int, k),
        look_views(frames@[5].look@) == look_views(look@),
{
    let mut frames: Vec<Frame> = Vec::new();
    let mut k: usize = 0;
    while k < 6
        invariant
            k <= 6,
            in_play < 6,
            look@.len() == 18,
            frames@.len() == k,
            forall|q: int|
                0 <= q < k ==> (#[trigger] frames@[q]).delay_ms == 50 && look_views(
                    frames@[q].look@,
                ) == shake_look_at(look_views(look@), in_play as int, q),
        decreases 6 - k,
    {
        let dx: i32 = match k {
            0 => 1,
            1 => -2,
            2 => 2,
            3 => -2,
            4 => 1,
            _ => 0,
        };
        let mut fl: Vec<Vec<String>> = Vec::new();
        let mut i: usize = 0;
        while i < 18
            invariant
                i <= 18,
                in_play < 6,
                look@.len() == 18,
                -2 <= dx <= 2,
                dx as int == shake_offset(k as int),
                0 <= k < 6,
                fl@.len() == i,
                forall|p: int|
                    0 <= p < i ==> #[trigger] cell_views(fl@[p]@) == (if in_play * 3 <= p
                        < in_play * 3 + 3 {
                        spec_shake_row(cell_views(look@[p]@), dx as int)
                    } else {
                        cell_views(look@[p]@)
                    }),
            decreases 18 - i,
        {
            if in_play * 3 <= i && i < in_play * 3 + 3 {
                fl.push(shake_row(&look[i], dx));
            } else {
                fl.push(copy_cells(&look[i]));
            }
            i += 1;
        }
        proof {
            assert(look_views(fl@) =~= shake_look_at(look_views(look@), in_play as int, k as int));
        }
        frames.push(Frame { look: fl, delay_ms: 50 });
        k += 1;
    }
    proof {
        let l0 = look_views(look@);
        assert forall|i: int| 0 <= i < l0.len() implies shake_look_at(l0, in_play as int, 5)[i]
            == l0[i] by {
            assert(shake_offset(5) == 0);
            assert(spec_shake_row(l0[i], 0) =~= l0[i]);
        }
        assert(shake_look_at(l0, in_play as int, 5) =~= l0);
    }
    frames
}

/// The bare character of a revealed letter box at local row `br`, column
/// `bc`.
pub open spec fn reveal_box_char(br: int, bc: int, letter: char) -> char {
    if br == 0 {
        if bc == 0 {
            '┌'
        } else if bc == 4 {
            '┐'
        } else {
            '─'
        }
    } else if br == 1 {
        if bc == 0 || bc == 4 {
            '│'
        } else if bc == 2 {
            letter
        } else {
            ' '
        }
    } else {
        if bc == 0 {
            '└'
        } else if bc == 4 {
            '┘'
        } else {
            '─'
        }
    }
}

/// A cell of a fully revealed box: the box character on the status colour.
pub open spec fn revealed_cell(br: int, bc: int, letter: char, status: u8) -> Seq<char> {
    styled_bg(status, seq![reveal_box_char(br, bc, letter)])
}

/// A cell of a flipped-away box: a bare horizontal line.
pub open spec fn flipped_cell(br: int) -> Seq<char> {
    if br == 1 {
        seq!['─']
    } else {
        seq![' ']
    }
}

/// Grid cell `(i, j)` of reveal frame `k`: columns already done show their
/// coloured boxes, an even frame holds its column flipped away, and the rest
/// still shows the original look.
pub open spec fn reveal_cell(
    look0: Seq<Seq<Seq<char>>>,
    ip: int,
    row: Seq<char>,
    answer: Seq<char>,
    k: int,
    i: int,
    j: int,
) -> Seq<char> {
    let c = j / 5;
    if ip * 3 <= i < ip * 3 + 3 && 0 <= j < 25 {
        let br = i - ip * 3;
        if c < (k + 1) / 2 {
            revealed_cell(br, j % 5, row[c], score_char(row, answer, c))
        } else if k % 2 == 0 && c == k / 2 {
            flipped_cell(br)
        } else {
            look0[i][j]
        }
    } else {
        look0[i][j]
    }
}

/// The whole look at reveal frame `k`.
pub open spec fn reveal_look_at(
    look0: Seq<Seq<Seq<char>>>,
    ip: int,
    row: Seq<char>,
    answer: Seq<char>,
    k: int,
) -> Seq<Seq<Seq<char>>> {
    Seq::new(
        look0.len(),
        |i: int| Seq::new(look0[i].len(), |j: int| reveal_cell(look0, ip, row, answer, k, i, j)),
    )
}

/// Replaces the five cells of one box of the current attempt's row triplet.
fn replace_box(
    look: &mut Vec<Vec<String>>,
    ip: usize,
    col: usize,
    top: Vec<String>,
    mid: Vec<String>,
    bot: Vec<String>,
)
    requires
        ip < 6,
        col < 5,
        old(look)@.len() == 18,
        forall|i: int| 0 <= i < 18 ==> #[trigger] old(look)@[i]@.len() == 25,
        top@.len() == 5,
        mid@.len() == 5,
        bot@.len() == 5,
    ensures
        final(look)@.len() == 18,
        forall|i: int| 0 <= i < 18 ==> #[trigger] final(look)@[i]@.len() == 25,
        forall|i: int, j: int|
            0 <= i < 18 && 0 <= j < 25 ==> #[trigger] final(look)@[i]@[j]@ == (if ip * 3 <= i
                < ip * 3 + 3 && col * 5 <= j < col * 5 + 5 {
                (if i == ip * 3 {
                    top@[j - col * 5]@
                } else if i == ip * 3 + 1 {
                    mid@[j - col * 5]@
                } else {
                    bot@[j - col * 5]@
                })
            } else {
                old(look)@[i]@[j]@
            }),
{
    let base = ip * 3;
    let mut br: usize = 0;
    while br < 3
        invariant
            ip < 6,
            col < 5,
            base == ip * 3,
            br <= 3,
            look@.len() == 18,
            top@.len() == 5 && mid@.len() == 5 && bot@.len() == 5,
            forall|i: int| 0 <= i < 18 ==> #[trigger] look@[i]@.len() == 25,
            forall|i: int, j: int|
                0 <= i < 18 && 0 <= j < 25 && !(base <= i < base + br && col * 5 <= j < col * 5
                    + 5) ==> #[trigger] look@[i]@[j]@ == old(look)@[i]@[j]@,
            forall|i: int, j: int|
                base <= i < base + br && col * 5 <= j < col * 5 + 5 ==> #[trigger] look@[i]@[j]@
                    == (if i == base {
                    top@[j - col * 5]@
                } else if i == base + 1 {
                    mid@[j - col * 5]@
                } else {
                    bot@[j - col * 5]@
                }),
        decreases 3 - br,
    {
        let mut row = copy_cells(&look[base + br]);
        let src: &Vec<String> = match br {
            0 => &top,
            1 => &mid,
            _ => &bot,
        };
        let mut q: usize = 0;
        while q < 5
            invariant
                q <= 5,
                col < 5,
                row@.len() == 25,
                src@.len() == 5,
                forall|j: int|
                    0 <= j < 25 && !(col * 5 <= j < col * 5 + q) ==> #[trigger] row@[j]@
                        == look@[base + br]@[j]@,
                forall|j: int|
                    col * 5 <= j < col * 5 + q ==> #[trigger] row@[j]@ == src@[j - col * 5]@,
                src@ == (if br == 0 {
                    top@
                } else if br == 1 {
                    mid@
                } else {
                    bot@
                }),
                look@.len() == 18,
                base + br < 18,
                look@[base + br]@.len() == 25,
            decreases 5 - q,
        {
            row.set(col * 5 + q, src[q].clone());
            q += 1;
        }
        look.set(base + br, row);
        br += 1;
    }
}

/// The ten frames of the reveal flip: for each column left to right, the box
/// flips away and then returns coloured with the column's status; the last
/// frame shows the whole row revealed.
pub fn reveal_frames(
    look: &Vec<Vec<String>>,
    in_play: usize,
    row: &Vec<char>,
    answer: &Vec<char>,
) -> (frames: Vec<Frame>)
    requires
        in_play < 6,
        look@.len() == 18,
        forall|i: int| 0 <= i < 18 ==> #[trigger] look@[i]@.len() == 25,
        row@.len() == 5,
        wf_answer(answer@),
    ensures
        frames@.len() == 10,
        forall|k: int|
            0 <= k < 10 ==> (#[trigger] frames@[k]).delay_ms == 300 && look_views(frames@[k].look@)
                == reveal_look_at(look_views(look@), in_play as int, row@, answer@, k),
{
    let ghost l0 = look_views(look@);
    let statuses = wordle_highlight(row, answer);
    let mut cur = crate::element::copy_look(look);
    let mut frames: Vec<Frame> = Vec::new();
    let mut col: usize = 0;
    while col < 5
        invariant
            col <= 5,
            in_play < 6,
            l0 == look_views(look@),
            look@.len() == 18,
            forall|i: int| 0 <= i < 18 ==> #[trigger] look@[i]@.len() == 25,
            row@.len() == 5,
            wf_answer(answer@),
            statuses@.len() == 5,
            forall|c: int| 0 <= c < 5 ==> statuses@[c] == score_char(row@, answer@, c),
            cur@.len() == 18,
            forall|i: int| 0 <= i < 18 ==> #[trigger] cur@[i]@.len() == 25,
            look_views(cur@) == (if col == 0 {
                l0
            } else {
                reveal_look_at(l0, in_play as int, row@, answer@, 2 * col - 1)
            }),
            frames@.len() == 2 * col,
            forall|k: int|
                0 <= k < 2 * col ==> (#[trigger] frames@[k]).delay_ms == 300 && look_views(
                    frames@[k].look@,
                ) == reveal_look_at(l0, in_play as int, row@, answer@, k),
        decreases 5 - col,
    {
        let ghost cur0 = look_views(cur@);
        // flip the column away
        let mut top: Vec<String> = Vec::new();
        let mut mid: Vec<String> = Vec::new();
        let mut bot: Vec<String> = Vec::new();
        let mut q: usize = 0;
        while q < 5
            invariant
                q <= 5,
                top@.len() == q && mid@.len() == q && bot@.len() == q,
                forall|p: int| 0 <= p < q ==> #[trigger] top@[p]@ == seq![' '],
                forall|p: int| 0 <= p < q ==> #[trigger] mid@[p]@ == seq!['─'],
                forall|p: int| 0 <= p < q ==> #[trigger] bot@[p]@ == seq![' '],
            decreases 5 - q,
        {
            top.push(cell(' '));
            mid.push(cell('─'));
            bot.push(cell(' '));
            q += 1;
        }
        replace_box(&mut cur, in_play, col, top, mid, bot);
        proof {
            lemma_reveal_step_flip(l0, cur0, look_views(cur@), in_play as int, row@, answer@, col as int);
        }
        frames.push(Frame { look: crate::element::copy_look(&cur), delay_ms: 300 });
        proof {
            let pushed = frames@[frames@.len() - 1];
            assert(look_views(pushed.look@) =~= look_views(cur@));
        }

        // reveal the column with its status colour
        let status = statuses[col];
        let letter = row[col];
        let ghost cur1 = look_views(cur@);
        let mut top: Vec<String> = Vec::new();
        let mut mid: Vec<String> = Vec::new();
        let mut bot: Vec<String> = Vec::new();
        let mut q: usize = 0;
        while q < 5
            invariant
                q <= 5,
                top@.len() == q && mid@.len() == q && bot@.len() == q,
                forall|p: int|
                    0 <= p < q ==> #[trigger] top@[p]@ == revealed_cell(0, p, letter, status),
                forall|p: int|
                    0 <= p < q ==> #[trigger] mid@[p]@ == revealed_cell(1, p, letter, status),
                forall|p: int|
                    0 <= p < q ==> #[trigger] bot@[p]@ == revealed_cell(2, p, letter, status),
            decreases 5 - q,
        {
            let tc: char = if q == 0 {
                '┌'
            } else if q == 4 {
                '┐'
            } else {
                '─'
            };
            let mc: char = if q == 0 || q == 4 {
                '│'
            } else if q == 2 {
                letter
            } else {
                ' '
            };
            let bc2: char = if q == 0 {
                '└'
            } else if q == 4 {
                '┘'
            } else {
                '─'
            };
            top.push(set_background(status, cell(tc).as_str()));
            mid.push(set_background(status, cell(mc).as_str()));
            bot.push(set_background(status, cell(bc2).as_str()));
            q += 1;
        }
        replace_box(&mut cur, in_play, col, top, mid, bot);
        proof {
            lemma_reveal_step_show(l0, cur1, look_views(cur@), in_play as int, row@, answer@, col as int);
        }
        frames.push(Frame { look: crate::element::copy_look(&cur), delay_ms: 300 });
        proof {
            let pushed = frames@[frames@.len() - 1];
            assert(look_views(pushed.look@) =~= look_views(cur@));
        }
        col += 1;
    }
    frames
}

/// Flipping column `col` away moves the reveal from frame `2·col − 1` (or
/// the original look) to frame `2·col`.
proof fn lemma_reveal_step_flip(
    l0: Seq<Seq<Seq<char>>>,
    prev: Seq<Seq<Seq<char>>>,
    now: Seq<Seq<Seq<char>>>,
    ip: int,
    row: Seq<char>,
    answer: Seq<char>,
    col: int,
)
    requires
        0 <= ip < 6,
        0 <= col < 5,
        l0.len() == 18,
        forall|i: int| 0 <= i < 18 ==> #[trigger] l0[i].len() == 25,
        prev == (if col == 0 {
            l0
        } else {
            reveal_look_at(l0, ip, row, answer, 2 * col - 1)
        }),
        now.len() == 18,
        forall|i: int| 0 <= i < 18 ==> #[trigger] now[i].len() == 25,
        forall|i: int, j: int|
            0 <= i < 18 && 0 <= j < 25 ==> #[trigger] now[i][j] == (if ip * 3 <= i < ip * 3 + 3
                && col * 5 <= j < col * 5 + 5 {
                flipped_cell(i - ip * 3)
            } else {
                prev[i][j]
            }),
    ensures
        now == reveal_look_at(l0, ip, row, answer, 2 * col),
{
    let goal = reveal_look_at(l0, ip, row, answer, 2 * col);
    assert forall|i: int, j: int| 0 <= i < 18 && 0 <= j < 25 implies now[i][j] == goal[i][j] by {
        let c = j / 5;
        vstd::arithmetic::div_mod::lemma_fundamental_div_mod(j, 5);
        assert(goal[i][j] == reveal_cell(l0, ip, row, answer, 2 * col, i, j));
        if ip * 3 <= i < ip * 3 + 3 {
            if col * 5 <= j < col * 5 + 5 {
                assert(c == col) by {
                    vstd::arithmetic::div_mod::lemma_fundamental_div_mod_converse(
                        j,
                        5,
                        col,
                        j - col * 5,
                    );
                }
            } else if col > 0 {
                assert(prev[i][j] == reveal_cell(l0, ip, row, answer, 2 * col - 1, i, j));
            }
        }
    }
    assert forall|i: int| 0 <= i < 18 implies now[i] == goal[i] by {
        assert(now[i] =~= goal[i]);
    }
    assert(now =~= goal);
}

/// Colouring column `col` moves the reveal from frame `2·col` to frame
/// `2·col + 1`.
proof fn lemma_reveal_step_show(
    l0: Seq<Seq<Seq<char>>>,
    prev: Seq<Seq<Seq<char>>>,
    now: Seq<Seq<Seq<char>>>,
    ip: int,
    row: Seq<char>,
    answer: Seq<char>,
    col: int,
)
    requires
        0 <= ip < 6,
        0 <= col < 5,
        row.len() == 5,
        l0.len() == 18,
        forall|i: int| 0 <= i < 18 ==> #[trigger] l0[i].len() == 25,
        prev == reveal_look_at(l0, ip, row, answer, 2 * col),
        now.len() == 18,
        forall|i: int| 0 <= i < 18 ==> #[trigger] now[i].len() == 25,
        forall|i: int, j: int|
            0 <= i < 18 && 0 <= j < 25 ==> #[trigger] now[i][j] == (if ip * 3 <= i < ip * 3 + 3
                && col * 5 <= j < col * 5 + 5 {
                revealed_cell(i - ip * 3, j - col * 5, row[col], score_char(row, answer, col))
            } else {
                prev[i][j]
            }),
    ensures
        now == reveal_look_at(l0, ip, row, answer, 2 * col + 1),
{
    let goal = reveal_look_at(l0, ip, row, answer, 2 * col + 1);
    assert forall|i: int, j: int| 0 <= i < 18 && 0 <= j < 25 implies now[i][j] == goal[i][j] by {
        let c = j / 5;
        vstd::arithmetic::div_mod::lemma_fundamental_div_mod(j, 5);
        assert(goal[i][j] == reveal_cell(l0, ip, row, answer, 2 * col + 1, i, j));
        if ip * 3 <= i < ip * 3 + 3 {
            if col * 5 <= j < col * 5 + 5 {
                assert(c == col) by {
                    vstd::arithmetic::div_mod::lemma_fundamental_div_mod_converse(
                        j,
                        5,
                        col,
                        j - col * 5,
                    );
                }
            } else {
                assert(prev[i][j] == reveal_cell(l0, ip, row, answer, 2 * col, i, j));
            }
        }
    }
    assert forall|i: int| 0 <= i < 18 implies now[i] == goal[i] by {
        assert(now[i] =~= goal[i]);
    }
    assert(now =~= goal);
}

} // verus!
