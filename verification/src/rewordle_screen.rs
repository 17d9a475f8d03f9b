//! The whole screen: the ordered element roster and the dispatchers the
//! host loop drives each tick — events first, then the loop hooks, then
//! every element's state projection.

use vstd::prelude::*;

use crate::element::{Element, ElementKind, Event, Frame};
use crate::game::{
    input_letter_rel, views, wf, wf_words, AppState, GameStatus, WordStatus,
};

verus! {

/// The elements in declaration order: the utility elements first, then the
/// board and keys, then the statistics.
pub fn build() -> (els: Vec<Element>)
    ensures
        els@.len() == 42,
        els@[0].kind == ElementKind::Screen,
        els@[1].kind == ElementKind::CenteredModal,
        els@[2].kind == ElementKind::TitleBar,
        els@[3].kind == ElementKind::ButtonExit,
        els@[4].kind == ElementKind::ButtonNext,
        els@[5].kind == ElementKind::Board,
        els@[6].kind == ElementKind::EnterKey,
        els@[7].kind == ElementKind::DeleteKey,
        els@[8].kind == ElementKind::Answer,
        els@[9].kind == ElementKind::Results,
        forall|k: int|
            10 <= k < 36 ==> (#[trigger] els@[k]).kind == (ElementKind::Key {
                letter: crate::elements::keyboard::key_letter(k - 10),
                rel_x: crate::elements::keyboard::key_x(k - 10) as u16,
                rel_y: crate::elements::keyboard::key_y(k - 10) as u16,
            }),
        forall|k: int|
            36 <= k < 42 ==> (#[trigger] els@[k]).kind == (ElementKind::Graph {
                index: (k - 36) as usize,
            }),
{
    let mut els: Vec<Element> = Vec::new();
    els.push(crate::elements::screen::build());
    els.push(crate::elements::centered_modal::build());
    els.push(crate::elements::title_bar::build());
    els.push(crate::elements::button_exit::build());
    els.push(crate::elements::button_next::build());
    els.push(crate::elements::board::build());
    els.push(crate::elements::enter_key::build());
    els.push(crate::elements::delete_key::build());
    els.push(crate::elements::answer::build());
    els.push(crate::elements::results::build());
    let mut kb = crate::elements::keyboard::build();
    let mut k: usize = 0;
    while k < kb.len()
        invariant
            k <= kb@.len(),
            kb@.len() == 26,
            els@.len() == 10 + k,
            els@[0].kind == ElementKind::Screen,
            els@[1].kind == ElementKind::CenteredModal,
            els@[2].kind == ElementKind::TitleBar,
            els@[3].kind == ElementKind::ButtonExit,
            els@[4].kind == ElementKind::ButtonNext,
            els@[5].kind == ElementKind::Board,
            els@[6].kind == ElementKind::EnterKey,
            els@[7].kind == ElementKind::DeleteKey,
            els@[8].kind == ElementKind::Answer,
            els@[9].kind == ElementKind::Results,
            forall|q: int|
                0 <= q < 26 ==> (#[trigger] kb@[q]).kind == (ElementKind::Key {
                    letter: crate::elements::keyboard::key_letter(q),
                    rel_x: crate::elements::keyboard::key_x(q) as u16,
                    rel_y: crate::elements::keyboard::key_y(q) as u16,
                }),
            forall|q: int|
                10 <= q < els@.len() ==> (#[trigger] els@[q]).kind == (ElementKind::Key {
                    letter: crate::elements::keyboard::key_letter(q - 10),
                    rel_x: crate::elements::keyboard::key_x(q - 10) as u16,
                    rel_y: crate::elements::keyboard::key_y(q - 10) as u16,
                }),
        decreases kb@.len() - k,
    {
        els.push(crate::element::copy_element(&kb[k]));
        k += 1;
    }
    let mut gr = crate::elements::graphs::build();
    let mut k: usize = 0;
    while k < gr.len()
        invariant
            k <= gr@.len(),
            gr@.len() == 6,
            els@.len() == 36 + k,
            els@[0].kind == ElementKind::Screen,
            els@[1].kind == ElementKind::CenteredModal,
            els@[2].kind == ElementKind::TitleBar,
            els@[3].kind == ElementKind::ButtonExit,
            els@[4].kind == ElementKind::ButtonNext,
            els@[5].kind == ElementKind::Board,
            els@[6].kind == ElementKind::EnterKey,
            els@[7].kind == ElementKind::DeleteKey,
            els@[8].kind == ElementKind::Answer,
            els@[9].kind == ElementKind::Results,
            forall|q: int|
                10 <= q < 36 ==> (#[trigger] els@[q]).kind == (ElementKind::Key {
                    letter: crate::elements::keyboard::key_letter(q - 10),
                    rel_x: crate::elements::keyboard::key_x(q - 10) as u16,
                    rel_y: crate::elements::keyboard::key_y(q - 10) as u16,
                }),
            forall|q: int|
                0 <= q < 6 ==> (#[trigger] gr@[q]).kind == (ElementKind::Graph {
                    index: q as usize,
                }),
            forall|q: int|
                36 <= q < els@.len() ==> (#[trigger] els@[q]).kind == (ElementKind::Graph {
                    index: (q - 36) as usize,
                }),
        decreases gr@.len() - k,
    {
        els.push(crate::element::copy_element(&gr[k]));
        k += 1;
    }
    els
}

/// The element kinds whose click hooks can change the state.
pub open spec fn is_interactive(kind: ElementKind) -> bool {
    match kind {
        ElementKind::ButtonExit => true,
        ElementKind::ButtonNext => true,
        ElementKind::EnterKey => true,
        ElementKind::DeleteKey => true,
        ElementKind::Key { .. } => true,
        _ => false,
    }
}

/// What a click on an element of the given kind does to the state: the exit
/// button raises the flag, the next button starts the next game once the
/// word is over, and the key elements type their key.
pub open spec fn click_rel(
    kind: ElementKind,
    s0: AppState,
    s1: AppState,
    pw: Seq<Seq<char>>,
    vw: Seq<Seq<char>>,
) -> bool {
    match kind {
        ElementKind::ButtonExit => crate::game::exit_raised(s0, s1),
        ElementKind::ButtonNext => if s0.game != GameStatus::InPlay {
            crate::game::new_game_rel(s0, s1, pw)
        } else {
            crate::game::same_state(s0, s1)
        },
        ElementKind::EnterKey => input_letter_rel(s0, s1, "enter"@, pw, vw),
        ElementKind::DeleteKey => input_letter_rel(s0, s1, "delete"@, pw, vw),
        ElementKind::Key { letter, .. } => input_letter_rel(s0, s1, seq![letter], pw, vw),
        _ => crate::game::same_state(s0, s1),
    }
}

/// A click effect starting from an indistinguishable state is the same
/// effect.
proof fn lemma_click_rel_prefix(
    kind: ElementKind,
    s0: AppState,
    s1: AppState,
    s2: AppState,
    pw: Seq<Seq<char>>,
    vw: Seq<Seq<char>>,
)
    requires
        crate::game::same_state(s0, s1),
        click_rel(kind, s1, s2, pw, vw),
    ensures
        click_rel(kind, s0, s2, pw, vw),
{
}

/// Nothing after a click effect changes what the effect was.
proof fn lemma_click_rel_suffix(
    kind: ElementKind,
    s0: AppState,
    s1: AppState,
    s2: AppState,
    pw: Seq<Seq<char>>,
    vw: Seq<Seq<char>>,
)
    requires
        click_rel(kind, s0, s1, pw, vw),
        crate::game::same_state(s1, s2),
    ensures
        click_rel(kind, s0, s2, pw, vw),
{
}

/// Routes one event to the hooks that take it, in declaration order: a key
/// goes to the exit button and then to the board; a click lands on at most
/// one interactive element and runs its hook.
pub fn handle_event(
    els: &Vec<Element>,
    state: &mut AppState,
    event: &Event,
    play_words: &Vec<Vec<char>>,
    valid_words: &Vec<Vec<char>>,
)
    requires
        wf(*old(state)),
        wf_words(views(play_words@)),
        wf_words(views(valid_words@)),
        play_words@.len() > 0,
    ensures
        wf(*final(state)),
        final(state).streak == old(state).streak,
        (event matches Event::Key { key, modifiers } ==> input_letter_rel(
            (AppState {
                exit_flag: old(state).exit_flag || (key@ == "c"@ && exists|m: int|
                    0 <= m < modifiers@.len() && (#[trigger] modifiers@[m])@ == "ctrl"@),
                ..*old(state)
            }),
            *final(state),
            key@,
            views(play_words@),
            views(valid_words@),
        )),
        (event matches Event::Click { x, y } ==> ((forall|k: int|
            0 <= k < els@.len() ==> !crate::element::spec_mouse_over(#[trigger] els@[k], *x, *y))
            ==> crate::game::same_state(*old(state), *final(state)))),
        (event matches Event::Click { x, y } ==> (forall|i: int|
            0 <= i < els@.len() && crate::element::spec_mouse_over(#[trigger] els@[i], *x, *y) && (
            forall|k: int|
                0 <= k < els@.len() && k != i && is_interactive((#[trigger] els@[k]).kind)
                    ==> !crate::element::spec_mouse_over(els@[k], *x, *y)) ==> click_rel(
                els@[i].kind,
                *old(state),
                *final(state),
                views(play_words@),
                views(valid_words@),
            ))),
        (event matches Event::Resize ==> *final(state) == *old(state)),
{
    match event {
        Event::Key { key, modifiers } => {
            crate::elements::button_exit::on_keypress(state, key.as_str(), modifiers);
            proof {
                assert(crate::game::board_views(*state) == crate::game::board_views(
                    *old(state),
                ));
                crate::game::lemma_used_preserved(*old(state), *state, state.in_play as int);
            }
            crate::game::input_letter(state, key.as_str(), play_words, valid_words);
        },
        Event::Click { x, y } => {
            let mut i: usize = 0;
            while i < els.len()
                invariant
                    i <= els@.len(),
                    wf(*state),
                    state.streak == old(state).streak,
                    wf_words(views(play_words@)),
                    wf_words(views(valid_words@)),
                    play_words@.len() > 0,
                    (forall|k: int|
                        0 <= k < els@.len() ==> !crate::element::spec_mouse_over(
                            #[trigger] els@[k],
                            *x,
                            *y,
                        )) ==> crate::game::same_state(*old(state), *state),
                    forall|i2: int|
                        0 <= i2 < els@.len() && crate::element::spec_mouse_over(
                            #[trigger] els@[i2],
                            *x,
                            *y,
                        ) && (forall|k: int|
                            0 <= k < els@.len() && k != i2 && is_interactive(
                                (#[trigger] els@[k]).kind,
                            ) ==> !crate::element::spec_mouse_over(els@[k], *x, *y)) ==> (
                        if i2 < i && is_interactive(els@[i2].kind) {
                            click_rel(
                                els@[i2].kind,
                                *old(state),
                                *state,
                                views(play_words@),
                                views(valid_words@),
                            )
                        } else {
                            crate::game::same_state(*old(state), *state)
                        }),
                decreases els@.len() - i,
            {
                let ghost pre = *state;
                let el = &els[i];
                match el.kind {
                    ElementKind::ButtonExit => {
                        crate::elements::button_exit::on_click(el, state, *x, *y);
                    },
                    ElementKind::ButtonNext => {
                        crate::elements::button_next::on_click(el, state, *x, *y, play_words);
                    },
                    ElementKind::EnterKey => {
                        crate::elements::enter_key::on_click(
                            el,
                            state,
                            *x,
                            *y,
                            play_words,
                            valid_words,
                        );
                    },
                    ElementKind::DeleteKey => {
                        crate::elements::delete_key::on_click(
                            el,
                            state,
                            *x,
                            *y,
                            play_words,
                            valid_words,
                        );
                    },
                    ElementKind::Key { letter, .. } => {
                        crate::elements::keyboard::on_click(
                            el,
                            state,
                            letter,
                            *x,
                            *y,
                            play_words,
                            valid_words,
                        );
                    },
                    _ => {},
                }
                proof {
                    let pwv = views(play_words@);
                    let vwv = views(valid_words@);
                    assert forall|i2: int|
                        0 <= i2 < els@.len() && crate::element::spec_mouse_over(
                            #[trigger] els@[i2],
                            *x,
                            *y,
                        ) && (forall|k: int|
                            0 <= k < els@.len() && k != i2 && is_interactive(
                                (#[trigger] els@[k]).kind,
                            ) ==> !crate::element::spec_mouse_over(els@[k], *x, *y)) implies (
                    if i2 < i + 1 && is_interactive(els@[i2].kind) {
                        click_rel(els@[i2].kind, *old(state), *state, pwv, vwv)
                    } else {
                        crate::game::same_state(*old(state), *state)
                    }) by {
                        let over = crate::element::spec_mouse_over(els@[i as int], *x, *y);
                        if i2 == i {
                            if is_interactive(els@[i as int].kind) {
                                lemma_click_rel_prefix(
                                    els@[i as int].kind,
                                    *old(state),
                                    pre,
                                    *state,
                                    pwv,
                                    vwv,
                                );
                            }
                        } else {
                            if over && is_interactive(els@[i as int].kind) {
                                assert(!crate::element::spec_mouse_over(els@[i as int], *x, *y));
                            } else {
                                assert(crate::game::same_state(pre, *state));
                                if i2 < i && is_interactive(els@[i2].kind) {
                                    lemma_click_rel_suffix(
                                        els@[i2].kind,
                                        *old(state),
                                        pre,
                                        *state,
                                        pwv,
                                        vwv,
                                    );
                                }
                            }
                        }
                    }
                }
                i += 1;
            }
        },
        Event::Resize => {},
    }
}

/// Runs the loop hooks: the screen recomputes the viewport, and the board
/// starts whatever animation the word status asks for. The result carries
/// the clear flag and the animation frames the host must draw.
pub fn on_loop_all(
    els: &mut Vec<Element>,
    state: &mut AppState,
    cols: u16,
    rows: u16,
) -> (r: (bool, Vec<Frame>))
    requires
        wf(*old(state)),
        old(els)@.len() == 42,
        old(els)@[5].kind == ElementKind::Board,
        old(state).word_status != WordStatus::InPlay ==> old(els)@[5].look@.len() == 18 && (forall|
            i: int,
        |
            0 <= i < 18 ==> #[trigger] old(els)@[5].look@[i]@.len() == 25),
        old(state).word_status == WordStatus::Valid ==> old(state).results@[old(
            state,
        ).in_play as int] < u32::MAX && old(state).results@[6] < u32::MAX && old(state).streak.0
            < u32::MAX && old(state).word_index < u32::MAX,
    ensures
        wf(*final(state)),
        final(els)@.len() == 42,
        forall|k: int|
            0 <= k < 42 ==> (#[trigger] final(els)@[k]).kind == old(els)@[k].kind,
        final(state).app_x == crate::element::spec_origin_x(cols),
        final(state).app_y == crate::element::spec_origin_y(rows),
        final(state).word_status == WordStatus::InPlay,
        ({
            let mid = AppState {
                app_x: crate::element::spec_origin_x(cols),
                app_y: crate::element::spec_origin_y(rows),
                ..*old(state)
            };
            &&& (old(state).word_status == WordStatus::InPlay ==> crate::game::same_state(
                mid,
                *final(state),
            ) && r.1@.len() == 0)
            &&& (old(state).word_status == WordStatus::Invalid ==> crate::game::word_status_set(
                mid,
                *final(state),
                WordStatus::InPlay,
            ) && r.1@.len() == 6)
            &&& (old(state).word_status == WordStatus::Valid ==> crate::game::commit_rel(
                mid,
                *final(state),
            ) && r.1@.len() == 10)
        }),
        r.0 == (old(state).app_x != crate::element::spec_origin_x(cols) || old(state).app_y
            != crate::element::spec_origin_y(rows)),
{
    let ghost els0 = els@;
    let clear = crate::elements::screen::on_loop(state, cols, rows);
    proof {
        assert(crate::game::board_views(*state) == crate::game::board_views(*old(state)));
    }
    let mut board = els.remove(5);
    let frames = crate::elements::board::on_loop(&mut board, state);
    els.insert(5, board);
    proof {
        assert(els@ =~= els0.update(5, els@[5]));
    }
    (clear, frames)
}


/// What one state projection guarantees, by element kind: the rebuilt look,
/// the new position, and whether the host draws the element.
pub open spec fn projected(
    el0: Element,
    el1: Element,
    d: bool,
    s: AppState,
    cols: u16,
    rows: u16,
) -> bool {
    el1.kind == el0.kind && match el0.kind {
        ElementKind::Screen => el1 == el0 && !d,
        ElementKind::CenteredModal => {
            &&& el1.x == 0 && el1.y == 0
            &&& (!crate::element::spec_fits(cols, rows) ==> {
                &&& el1.look@.len() == rows as int
                &&& (forall|p: int|
                    0 <= p < rows as int ==> (#[trigger] el1.look@[p]@).len() == cols as int)
                &&& (forall|p: int, q: int|
                    0 <= p < rows as int && 0 <= q < cols as int ==> #[trigger] el1.look@[p]@[q]@
                        == crate::elements::centered_modal::modal_cell(
                        cols as int,
                        rows as int,
                        p,
                        q,
                    ))
            })
            &&& (crate::element::spec_fits(cols, rows) ==> el1.look@.len() == 1
                && el1.look@[0]@.len() == 1 && el1.look@[0]@[0]@ == Seq::<char>::empty())
            &&& d
        },
        ElementKind::TitleBar => {
            &&& el1.x == 0 && el1.y == 0
            &&& el1.look@.len() == 1 && el1.look@[0]@.len() == 1
            &&& el1.look@[0]@[0]@ == crate::style::spec_inverse(
                crate::elements::title_bar::title_line(cols as int),
            )
            &&& d
        },
        ElementKind::ButtonExit => {
            &&& el1.look@ == el0.look@
            &&& el1.y == el0.y
            &&& el1.x == (if cols >= 4 {
                (cols - 4) as u16
            } else {
                0u16
            })
            &&& d
        },
        ElementKind::ButtonNext => {
            &&& el1.look@.len() == 1 && el1.look@[0]@.len() == 1
            &&& el1.look@[0]@[0]@ == (if s.game != GameStatus::InPlay {
                crate::style::spec_underline("Next"@)
            } else {
                "    "@
            })
            &&& el1.x == s.app_x + crate::elements::button_next::NEXT_X
            &&& el1.y == s.app_y + crate::elements::button_next::NEXT_Y
            &&& d == crate::element::spec_fits(cols, rows)
        },
        ElementKind::Board => {
            &&& el1.look@.len() == 18
            &&& (forall|p: int| 0 <= p < 18 ==> (#[trigger] el1.look@[p]@).len() == 25)
            &&& (forall|p: int, q: int|
                0 <= p < 18 && 0 <= q < 25 ==> #[trigger] el1.look@[p]@[q]@
                    == crate::elements::board::board_cell(s, p, q))
            &&& el1.x == s.app_x + crate::elements::board::BOARD_X
            &&& el1.y == s.app_y + crate::elements::board::BOARD_Y
            &&& d == crate::element::spec_fits(cols, rows)
        },
        ElementKind::EnterKey => {
            &&& el1.look@ == el0.look@
            &&& el1.x == s.app_x + crate::elements::enter_key::ENTER_X
            &&& el1.y == s.app_y + crate::elements::enter_key::ENTER_Y
            &&& d == crate::element::spec_fits(cols, rows)
        },
        ElementKind::DeleteKey => {
            &&& el1.look@ == el0.look@
            &&& el1.x == s.app_x + crate::elements::delete_key::DELETE_X
            &&& el1.y == s.app_y + crate::elements::delete_key::DELETE_Y
            &&& d == crate::element::spec_fits(cols, rows)
        },
        ElementKind::Key { letter, rel_x, rel_y } => {
            if rel_x <= 80 && rel_y <= 24 {
                &&& el1.look@.len() == 3
                &&& (forall|p: int| 0 <= p < 3 ==> (#[trigger] el1.look@[p]@).len() == 3)
                &&& (forall|p: int, q: int|
                    0 <= p < 3 && 0 <= q < 3 ==> #[trigger] el1.look@[p]@[q]@ == (
                    if s.used@.contains(letter) {
                        crate::style::styled_bg(
                            crate::elements::keyboard::key_status(s, letter, s.in_play as int),
                            crate::elements::keyboard::key_cell(letter, p, q),
                        )
                    } else {
                        crate::elements::keyboard::key_cell(letter, p, q)
                    }))
                &&& el1.x == s.app_x + rel_x
                &&& el1.y == s.app_y + rel_y
                &&& d == crate::element::spec_fits(cols, rows)
            } else {
                el1 == el0 && !d
            }
        },
        ElementKind::Answer => {
            &&& el1.look@.len() == 1 && el1.look@[0]@.len() == 1
            &&& el1.look@[0]@[0]@ == crate::elements::answer::answer_line(s)
            &&& el1.x == s.app_x + crate::elements::answer::ANSWER_X
            &&& el1.y == s.app_y + crate::elements::answer::ANSWER_Y
            &&& d == crate::element::spec_fits(cols, rows)
        },
        ElementKind::Results => {
            &&& el1.look@.len() == 4
            &&& (forall|p: int| 0 <= p < 4 ==> (#[trigger] el1.look@[p]@).len() == 1)
            &&& (forall|p: int|
                0 <= p < 4 ==> #[trigger] el1.look@[p]@[0]@
                    == crate::elements::results::results_line(s, p))
            &&& el1.x == s.app_x + crate::elements::results::RESULTS_X
            &&& el1.y == s.app_y + crate::elements::results::RESULTS_Y
            &&& d == crate::element::spec_fits(cols, rows)
        },
        ElementKind::Graph { index } => {
            if index < 6 {
                &&& el1.look@.len() == 1 && el1.look@[0]@.len() == 1
                &&& el1.look@[0]@[0]@ == crate::elements::graphs::bar_line(s, index as int)
                &&& el1.x == s.app_x + crate::elements::graphs::GRAPHS_X
                &&& el1.y == s.app_y + crate::elements::graphs::GRAPHS_Y + index
                &&& d == crate::element::spec_fits(cols, rows)
            } else {
                el1 == el0 && !d
            }
        },
    }
}

/// Runs every element's state hook in declaration order, re-projecting the
/// state into each look; the result lists which elements the host must
/// draw.
pub fn on_state_all(els: &mut Vec<Element>, state: &AppState, cols: u16, rows: u16) -> (draw: Vec<
    bool,
>)
    requires
        wf(*state),
        old(els)@.len() == 42,
    ensures
        final(els)@.len() == 42,
        draw@.len() == 42,
        forall|k: int|
            0 <= k < 42 ==> (#[trigger] final(els)@[k]).kind == old(els)@[k].kind,
        forall|k: int|
            0 <= k < 42 ==> projected(
                old(els)@[k],
                #[trigger] final(els)@[k],
                draw@[k],
                *state,
                cols,
                rows,
            ),
{
    let mut draw: Vec<bool> = Vec::new();
    let mut i: usize = 0;
    while i < 42
        invariant
            i <= 42,
            wf(*state),
            els@.len() == 42,
            draw@.len() == i,
            forall|k: int|
                0 <= k < i ==> projected(
                    old(els)@[k],
                    #[trigger] els@[k],
                    draw@[k],
                    *state,
                    cols,
                    rows,
                ),
            forall|k: int| i <= k < 42 ==> #[trigger] els@[k] == old(els)@[k],
        decreases 42 - i,
    {
        let ghost before = els@;
        let mut el = els.remove(i);
        let d: bool = match el.kind {
            ElementKind::Screen => false,
            ElementKind::CenteredModal => crate::elements::centered_modal::on_state(
                &mut el,
                cols,
                rows,
            ),
            ElementKind::TitleBar => crate::elements::title_bar::on_state(&mut el, cols),
            ElementKind::ButtonExit => crate::elements::button_exit::on_state(&mut el, cols),
            ElementKind::ButtonNext => crate::elements::button_next::on_state(
                &mut el,
                state,
                cols,
                rows,
            ),
            ElementKind::Board => crate::elements::board::on_state(&mut el, state, cols, rows),
            ElementKind::EnterKey => crate::elements::enter_key::on_state(
                &mut el,
                state,
                cols,
                rows,
            ),
            ElementKind::DeleteKey => crate::elements::delete_key::on_state(
                &mut el,
                state,
                cols,
                rows,
            ),
            ElementKind::Key { letter, rel_x, rel_y } => {
                if rel_x <= 80 && rel_y <= 24 {
                    crate::elements::keyboard::on_state(
                        &mut el,
                        state,
                        letter,
                        rel_x,
                        rel_y,
                        cols,
                        rows,
                    )
                } else {
                    false
                }
            },
            ElementKind::Answer => crate::elements::answer::on_state(&mut el, state, cols, rows),
            ElementKind::Results => crate::elements::results::on_state(&mut el, state, cols, rows),
            ElementKind::Graph { index } => {
                if index < 6 {
                    crate::elements::graphs::on_state(&mut el, state, index, cols, rows)
                } else {
                    false
                }
            },
        };
        els.insert(i, el);
        proof {
            assert(els@ =~= before.update(i as int, els@[i as int]));
            assert(projected(old(els)@[i as int], els@[i as int], d, *state, cols, rows));
        }
        draw.push(d);
        i += 1;
    }
    draw
}

} // verus!
