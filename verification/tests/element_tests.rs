use rewordle::element::{dynamic_x, dynamic_y, fits, mouse_over, ElementKind, Event};
use rewordle::elements::animators::{invalid_word_frames, reveal_frames};
use rewordle::elements::{
    answer, board, button_exit, button_next, centered_modal, enter_key, graphs, keyboard, results,
    screen, title_bar,
};
use rewordle::game::{commit_word, input_letter, AppState, GameStatus, WordStatus};
use rewordle::rewordle_screen::{build, handle_event, on_loop_all, on_state_all};

fn word(s: &str) -> Vec<char> {
    s.chars().collect()
}

fn words(list: &[&str]) -> Vec<Vec<char>> {
    list.iter().map(|s| word(s)).collect()
}

fn fresh(play: &Vec<Vec<char>>) -> AppState {
    AppState::new(vec![0; 7], (0, 0), 0, play)
}

const GREEN: &str = "\u{1b}[48;2;0;127;0m";
const YELLOW: &str = "\u{1b}[48;2;127;127;0m";
const GREY: &str = "\u{1b}[48;2;127;127;127m";
const RESET: &str = "\u{1b}[0m";

#[test]
fn viewport_is_centered_and_saturates() {
    assert_eq!(dynamic_x(100, 9), 19);
    assert_eq!(dynamic_x(80, 9), 9);
    assert_eq!(dynamic_x(40, 9), 9);
    assert_eq!(dynamic_y(24, 4), 4);
    assert_eq!(dynamic_y(50, 4), 17);
    assert!(fits(80, 24));
    assert!(!fits(79, 24));
    assert!(!fits(80, 23));
}

#[test]
fn mouse_over_respects_the_look_rectangle() {
    let play = words(&["CRANE"]);
    let mut state = fresh(&play);
    let mut el = enter_key::build();
    enter_key::on_state(&mut el, &state, 100, 30);
    // enter key is five cells wide and three tall
    let (x, y) = (el.x, el.y);
    assert!(mouse_over(&el, x, y));
    assert!(mouse_over(&el, x + 4, y + 2));
    assert!(!mouse_over(&el, x + 5, y));
    assert!(!mouse_over(&el, x, y + 3));
    if x > 0 {
        assert!(!mouse_over(&el, x - 1, y));
    }
    let _ = &mut state;
}

#[test]
fn board_look_styles_committed_rows_only() {
    let play = words(&["ROBIN"]);
    let valid = words(&["REROB"]);
    let mut state = fresh(&play);
    for ch in "REROB".chars() {
        input_letter(&mut state, &ch.to_string(), &play, &valid);
    }
    input_letter(&mut state, "enter", &play, &valid);
    commit_word(&mut state);
    let look = board::board_look(&state);
    assert_eq!(look.len(), 18);
    assert!(look.iter().all(|row| row.len() == 25));
    // committed row: center cells carry the status backgrounds 2,0,0,1,1
    assert_eq!(look[1][2], format!("{}R{}", GREEN, RESET));
    assert_eq!(look[1][7], format!("{}E{}", GREY, RESET));
    assert_eq!(look[1][17], format!("{}O{}", YELLOW, RESET));
    // even the borders of a committed row are styled
    assert_eq!(look[0][0], format!("{}┌{}", GREEN, RESET));
    // the next row is still bare
    assert_eq!(look[4][2], " ");
    assert_eq!(look[3][0], "┌");
}

#[test]
fn keyboard_key_takes_its_best_status() {
    let play = words(&["ROBIN"]);
    let valid = words(&["REROB"]);
    let mut state = fresh(&play);
    for ch in "REROB".chars() {
        input_letter(&mut state, &ch.to_string(), &play, &valid);
    }
    input_letter(&mut state, "enter", &play, &valid);
    commit_word(&mut state);
    let mut el = keyboard::create_key(40, 13, 'R');
    keyboard::on_state(&mut el, &state, 'R', 40, 13, 100, 30);
    // R scored EXACT at position 0, so the key turns green
    assert_eq!(el.look[1][1], format!("{}R{}", GREEN, RESET));
    let mut el = keyboard::create_key(40, 13, 'O');
    keyboard::on_state(&mut el, &state, 'O', 40, 13, 100, 30);
    assert_eq!(el.look[1][1], format!("{}O{}", YELLOW, RESET));
    let mut el = keyboard::create_key(40, 13, 'Z');
    keyboard::on_state(&mut el, &state, 'Z', 40, 13, 100, 30);
    // Z was never used: the key stays bare
    assert_eq!(el.look[1][1], "Z");
}

#[test]
fn keyboard_colour_comes_from_committed_rows_only() {
    // A reached EXISTS in the committed row; typing A at its exact spot on
    // the uncommitted row must not upgrade the key to green
    let play = words(&["ABCDE"]);
    let valid = words(&["FGHIA"]);
    let mut state = fresh(&play);
    for ch in "FGHIA".chars() {
        input_letter(&mut state, &ch.to_string(), &play, &valid);
    }
    input_letter(&mut state, "enter", &play, &valid);
    commit_word(&mut state);
    input_letter(&mut state, "a", &play, &valid);
    assert_eq!(state.status[1][0], 'A');
    let mut el = keyboard::create_key(40, 13, 'A');
    keyboard::on_state(&mut el, &state, 'A', 40, 13, 100, 30);
    assert_eq!(el.look[1][1], format!("{}A{}", YELLOW, RESET));
}

#[test]
fn title_bar_pads_the_name_to_the_width() {
    let mut el = title_bar::build();
    title_bar::on_state(&mut el, 20);
    assert_eq!(el.look[0][0], format!("\u{1b}[7mRusty Wordle        {}", RESET));
}

#[test]
fn modal_centers_its_message_when_too_small() {
    let mut el = centered_modal::build();
    centered_modal::on_state(&mut el, 60, 10);
    assert_eq!(el.look.len(), 10);
    assert_eq!(el.look[5].len(), 60);
    let line: String = el.look[5].iter().map(|c| c.as_str()).collect::<String>();
    assert_eq!(line.trim_end(), "                  Enlarge Terminal Window");
    centered_modal::on_state(&mut el, 100, 30);
    assert_eq!(el.look.len(), 1);
    assert_eq!(el.look[0][0], "");
}

#[test]
fn exit_button_reacts_to_ctrl_c_only() {
    let play = words(&["CRANE"]);
    let mut state = fresh(&play);
    button_exit::on_keypress(&mut state, "c", &vec![]);
    assert!(!state.exit_flag);
    button_exit::on_keypress(&mut state, "c", &vec!["ctrl".to_string()]);
    assert!(state.exit_flag);
}

#[test]
fn next_button_appears_after_the_game_and_restarts_on_click() {
    let play = words(&["CRANE", "ROBIN"]);
    let valid = words(&["CRANE"]);
    let mut state = fresh(&play);
    let mut el = button_next::build();
    button_next::on_state(&mut el, &state, 100, 30);
    assert_eq!(el.look[0][0], "    ");
    for ch in "CRANE".chars() {
        input_letter(&mut state, &ch.to_string(), &play, &valid);
    }
    input_letter(&mut state, "enter", &play, &valid);
    commit_word(&mut state);
    button_next::on_state(&mut el, &state, 100, 30);
    assert_eq!(el.look[0][0], format!("\u{1b}[4mNext{}", RESET));
    button_next::on_click(&el, &mut state, el.x, el.y, &play);
    assert!(matches!(state.game, GameStatus::InPlay));
    assert_eq!(state.answer, word("ROBIN"));
}

#[test]
fn answer_line_hides_then_reveals_the_word() {
    let play = words(&["CRANE"]);
    let valid = words(&["CRANE", "FGHIJ"]);
    let mut state = fresh(&play);
    let mut el = answer::build();
    answer::on_state(&mut el, &state, 100, 30);
    assert_eq!(el.look[0][0], "Wordle #1 ?????");
    for ch in "CRANE".chars() {
        input_letter(&mut state, &ch.to_string(), &play, &valid);
    }
    input_letter(&mut state, "enter", &play, &valid);
    commit_word(&mut state);
    answer::on_state(&mut el, &state, 100, 30);
    assert_eq!(el.look[0][0], "Wordle #1 CRANE");
}

#[test]
fn answer_line_inverts_the_word_on_a_loss() {
    let play = words(&["ABCDE"]);
    let valid = words(&["FGHIJ"]);
    let mut state = fresh(&play);
    for _ in 0..6 {
        for ch in "FGHIJ".chars() {
            input_letter(&mut state, &ch.to_string(), &play, &valid);
        }
        input_letter(&mut state, "enter", &play, &valid);
        commit_word(&mut state);
    }
    let mut el = answer::build();
    answer::on_state(&mut el, &state, 100, 30);
    assert_eq!(el.look[0][0], format!("Wordle #1 \u{1b}[7mABCDE{}", RESET));
}

#[test]
fn praise_follows_the_attempt_count() {
    assert_eq!(answer::praise(1), "Genius");
    assert_eq!(answer::praise(2), "Magnificent");
    assert_eq!(answer::praise(3), "Impressive");
    assert_eq!(answer::praise(4), "Splendid");
    assert_eq!(answer::praise(5), "Great");
    assert_eq!(answer::praise(6), "Phew");
    assert_eq!(answer::praise(0), "???");
}

#[test]
fn results_figures_follow_the_counters() {
    let play = words(&["CRANE"]);
    let mut state = AppState::new(vec![1, 0, 1, 0, 0, 0, 1], (2, 5), 0, &play);
    let mut el = results::build();
    results::on_state(&mut el, &state, 100, 30);
    assert_eq!(el.look[0][0], "Played: 3");
    // two wins out of three, rounded: 67
    assert_eq!(el.look[1][0], "Win %: 67");
    assert_eq!(el.look[2][0], "Streak: 2  ");
    assert_eq!(el.look[3][0], "Max Streak: 5");
    state.results = vec![0; 7];
    results::on_state(&mut el, &state, 100, 30);
    assert_eq!(el.look[1][0], "Win %: 0");
}

#[test]
fn graph_bars_scale_against_the_best_attempt() {
    let play = words(&["CRANE"]);
    let state = AppState::new(vec![2, 4, 0, 0, 0, 0, 9], (0, 0), 0, &play);
    let mut els = graphs::build();
    graphs::on_state(&mut els[0], &state, 0, 100, 30);
    // 2 of 4: half of the ten cells
    assert_eq!(
        els[0].look[0][0],
        format!("1 \u{1b}[7m     {}\u{1b}[7m2{}      ", RESET, RESET)
    );
    graphs::on_state(&mut els[2], &state, 2, 100, 30);
    assert_eq!(els[2].look[0][0], format!("3 \u{1b}[7m{}\u{1b}[7m0{}           ", RESET, RESET));
}

#[test]
fn shake_frames_slide_and_restore_the_row() {
    let play = words(&["CRANE"]);
    let valid = words(&["CRANE"]);
    let mut state = fresh(&play);
    input_letter(&mut state, "a", &play, &valid);
    let look = board::board_look(&state);
    let frames = invalid_word_frames(&look, 0);
    assert_eq!(frames.len(), 6);
    assert!(frames.iter().all(|f| f.delay_ms == 50));
    // first frame shifts the current row right by one: the letter A moves
    // from column 2 to column 3
    assert_eq!(look[1][2], "A");
    assert_eq!(frames[0].look[1][3], "A");
    assert_eq!(frames[0].look[1][0], "│");
    // untouched rows stay as they were
    assert_eq!(frames[0].look[3], look[3]);
    // the last frame restores the original row
    assert_eq!(frames[5].look[1], look[1]);
}

#[test]
fn reveal_frames_flip_and_colour_each_column() {
    let play = words(&["ROBIN"]);
    let valid = words(&["REROB"]);
    let mut state = fresh(&play);
    for ch in "REROB".chars() {
        input_letter(&mut state, &ch.to_string(), &play, &valid);
    }
    let look = board::board_look(&state);
    let row = word("REROB");
    let answer_arr = word("ROBIN");
    let frames = reveal_frames(&look, 0, &row, &answer_arr);
    assert_eq!(frames.len(), 10);
    assert!(frames.iter().all(|f| f.delay_ms == 300));
    // frame 0: the first box is flipped away
    assert_eq!(frames[0].look[0][0], " ");
    assert_eq!(frames[0].look[1][2], "─");
    // frame 1: the first box returns coloured green (R is exact)
    assert_eq!(frames[1].look[1][2], format!("{}R{}", GREEN, RESET));
    assert_eq!(frames[1].look[0][0], format!("{}┌{}", GREEN, RESET));
    // and the rest of the row is still bare
    assert_eq!(frames[1].look[1][7], "E");
    // the final frame shows all five coloured boxes
    assert_eq!(frames[9].look[1][7], format!("{}E{}", GREY, RESET));
    assert_eq!(frames[9].look[1][17], format!("{}O{}", YELLOW, RESET));
}

#[test]
fn board_on_loop_runs_the_reveal_and_books_the_word() {
    let play = words(&["CRANE", "ROBIN"]);
    let valid = words(&["CRANE"]);
    let mut state = fresh(&play);
    let mut el = board::build();
    board::on_state(&mut el, &state, 100, 30);
    for ch in "CRANE".chars() {
        input_letter(&mut state, &ch.to_string(), &play, &valid);
    }
    input_letter(&mut state, "enter", &play, &valid);
    board::on_state(&mut el, &state, 100, 30);
    let frames = board::on_loop(&mut el, &mut state);
    assert_eq!(frames.len(), 10);
    assert!(matches!(state.game, GameStatus::Won));
    assert!(matches!(state.word_status, WordStatus::InPlay));
    assert_eq!(state.results[0], 1);
    // the board look was left on the final frame, which matches the
    // committed board projection for that row
    let projected = board::board_look(&state);
    assert_eq!(el.look[1], projected[1]);
}

#[test]
fn board_on_loop_shakes_an_invalid_word() {
    let play = words(&["CRANE"]);
    let valid = words(&["CRANE"]);
    let mut state = fresh(&play);
    let mut el = board::build();
    board::on_state(&mut el, &state, 100, 30);
    for ch in "XQZYY".chars() {
        input_letter(&mut state, &ch.to_string(), &play, &valid);
    }
    input_letter(&mut state, "enter", &play, &valid);
    assert!(matches!(state.word_status, WordStatus::Invalid));
    board::on_state(&mut el, &state, 100, 30);
    let before = el.look.clone();
    let frames = board::on_loop(&mut el, &mut state);
    assert_eq!(frames.len(), 6);
    assert!(matches!(state.word_status, WordStatus::InPlay));
    assert_eq!(state.in_play, 0);
    assert_eq!(el.look, before);
}

#[test]
fn screen_on_loop_tracks_the_origin() {
    let play = words(&["CRANE"]);
    let mut state = fresh(&play);
    let clear = screen::on_loop(&mut state, 100, 30);
    assert!(clear);
    assert_eq!((state.app_x, state.app_y), (10, 3));
    let clear = screen::on_loop(&mut state, 100, 30);
    assert!(!clear);
}

#[test]
fn the_screen_roster_lists_every_element() {
    let els = build();
    assert_eq!(els.len(), 42);
    assert!(matches!(els[0].kind, ElementKind::Screen));
    assert!(matches!(els[5].kind, ElementKind::Board));
    assert!(matches!(els[10].kind, ElementKind::Key { letter: 'Q', .. }));
    assert!(matches!(els[35].kind, ElementKind::Key { letter: 'M', .. }));
    assert!(matches!(els[36].kind, ElementKind::Graph { index: 0 }));
    assert!(matches!(els[41].kind, ElementKind::Graph { index: 5 }));
}

#[test]
fn a_whole_tick_types_reveals_and_draws() {
    let play = words(&["CRANE"]);
    let valid = words(&["CRANE"]);
    let mut state = fresh(&play);
    let mut els = build();
    for ch in "CRANE".chars() {
        let ev = Event::Key { key: ch.to_string(), modifiers: vec![] };
        handle_event(&els, &mut state, &ev, &play, &valid);
        let (_, frames) = on_loop_all(&mut els, &mut state, 100, 30);
        assert!(frames.is_empty());
        on_state_all(&mut els, &state, 100, 30);
    }
    let ev = Event::Key { key: "enter".to_string(), modifiers: vec![] };
    handle_event(&els, &mut state, &ev, &play, &valid);
    let (_, frames) = on_loop_all(&mut els, &mut state, 100, 30);
    assert_eq!(frames.len(), 10);
    assert!(matches!(state.game, GameStatus::Won));
    let draw = on_state_all(&mut els, &state, 100, 30);
    assert_eq!(draw.len(), 42);
    assert!(!draw[0]);
    assert!(draw[5]);
}

#[test]
fn clicking_the_keyboard_types_the_letter() {
    let play = words(&["CRANE"]);
    let valid = words(&["CRANE"]);
    let mut state = fresh(&play);
    let mut els = build();
    on_loop_all(&mut els, &mut state, 100, 30);
    on_state_all(&mut els, &state, 100, 30);
    // click the Q key at its drawn position
    let (qx, qy) = (els[10].x, els[10].y);
    let ev = Event::Click { x: qx + 1, y: qy + 1 };
    handle_event(&els, &mut state, &ev, &play, &valid);
    assert_eq!(state.status[0][0], 'Q');
}

#[test]
fn clicking_delete_erases_the_letter() {
    let play = words(&["CRANE"]);
    let valid = words(&["CRANE"]);
    let mut state = fresh(&play);
    let mut els = build();
    on_loop_all(&mut els, &mut state, 100, 30);
    on_state_all(&mut els, &state, 100, 30);
    input_letter(&mut state, "a", &play, &valid);
    let (dx, dy) = (els[7].x, els[7].y);
    let ev = Event::Click { x: dx + 1, y: dy + 1 };
    handle_event(&els, &mut state, &ev, &play, &valid);
    assert_eq!(state.status[0][0], ' ');
}
