use rewordle::game::{commit_word, exit_ui, input_letter, new_game, AppState, GameStatus, WordStatus};

fn word(s: &str) -> Vec<char> {
    s.chars().collect()
}

fn words(list: &[&str]) -> Vec<Vec<char>> {
    list.iter().map(|s| word(s)).collect()
}

fn fresh(play: &Vec<Vec<char>>) -> AppState {
    AppState::new(vec![0; 7], (0, 0), 0, play)
}

fn type_word(state: &mut AppState, w: &str, play: &Vec<Vec<char>>, valid: &Vec<Vec<char>>) {
    for ch in w.chars() {
        let key = ch.to_string();
        input_letter(state, &key, play, valid);
    }
    input_letter(state, "enter", play, valid);
}

#[test]
fn typing_fills_the_row_left_to_right() {
    let play = words(&["CRANE"]);
    let valid = words(&["CRANE"]);
    let mut state = fresh(&play);
    input_letter(&mut state, "c", &play, &valid);
    input_letter(&mut state, "R", &play, &valid);
    assert_eq!(state.status[0], vec!['C', 'R', ' ', ' ', ' ']);
    assert_eq!(state.in_play, 0);
}

#[test]
fn delete_clears_the_rightmost_letter() {
    let play = words(&["CRANE"]);
    let valid = words(&["CRANE"]);
    let mut state = fresh(&play);
    input_letter(&mut state, "c", &play, &valid);
    input_letter(&mut state, "r", &play, &valid);
    input_letter(&mut state, "delete", &play, &valid);
    assert_eq!(state.status[0], vec!['C', ' ', ' ', ' ', ' ']);
    input_letter(&mut state, "delete", &play, &valid);
    assert_eq!(state.status[0], vec![' ', ' ', ' ', ' ', ' ']);
    // deleting an empty row is ignored
    input_letter(&mut state, "delete", &play, &valid);
    assert_eq!(state.status[0], vec![' ', ' ', ' ', ' ', ' ']);
}

#[test]
fn unrecognized_keys_are_ignored() {
    let play = words(&["CRANE"]);
    let valid = words(&["CRANE"]);
    let mut state = fresh(&play);
    input_letter(&mut state, "1", &play, &valid);
    input_letter(&mut state, "!", &play, &valid);
    input_letter(&mut state, "escape", &play, &valid);
    assert_eq!(state.status[0], vec![' ', ' ', ' ', ' ', ' ']);
}

#[test]
fn enter_on_a_partial_row_is_ignored() {
    let play = words(&["CRANE"]);
    let valid = words(&["CRANE"]);
    let mut state = fresh(&play);
    input_letter(&mut state, "c", &play, &valid);
    input_letter(&mut state, "enter", &play, &valid);
    assert!(matches!(state.word_status, WordStatus::InPlay));
    assert_eq!(state.in_play, 0);
}

#[test]
fn winning_first_try_books_the_word() {
    let play = words(&["CRANE", "ROBIN"]);
    let valid = words(&["CRANE", "ROBIN", "PAPER"]);
    let mut state = fresh(&play);
    type_word(&mut state, "CRANE", &play, &valid);
    assert!(matches!(state.word_status, WordStatus::Valid));
    commit_word(&mut state);
    assert!(matches!(state.game, GameStatus::Won));
    assert_eq!(state.results[0], 1);
    assert_eq!(state.streak, (1, 1));
    assert_eq!(state.word_index, 1);
    assert_eq!(state.in_play, 1);
    assert!(matches!(state.word_status, WordStatus::InPlay));
}

#[test]
fn lowercase_input_wins_too() {
    let play = words(&["CRANE"]);
    let valid = words(&["CRANE"]);
    let mut state = fresh(&play);
    type_word(&mut state, "crane", &play, &valid);
    assert!(matches!(state.word_status, WordStatus::Valid));
    commit_word(&mut state);
    assert!(matches!(state.game, GameStatus::Won));
}

#[test]
fn invalid_word_shakes_and_changes_nothing() {
    let play = words(&["CRANE"]);
    let valid = words(&["CRANE", "PAPER"]);
    let mut state = fresh(&play);
    type_word(&mut state, "XQZYY", &play, &valid);
    assert!(matches!(state.word_status, WordStatus::Invalid));
    assert_eq!(state.in_play, 0);
    assert_eq!(state.status[0], vec!['X', 'Q', 'Z', 'Y', 'Y']);
    assert!(matches!(state.game, GameStatus::InPlay));
}

#[test]
fn word_from_the_valid_list_is_accepted() {
    let play = words(&["CRANE"]);
    let valid = words(&["PAPER"]);
    let mut state = fresh(&play);
    type_word(&mut state, "PAPER", &play, &valid);
    assert!(matches!(state.word_status, WordStatus::Valid));
    commit_word(&mut state);
    assert!(matches!(state.game, GameStatus::InPlay));
    assert_eq!(state.in_play, 1);
    assert_eq!(state.used, vec!['P', 'A', 'E', 'R']);
    assert_eq!(state.results, vec![0; 7]);
}

#[test]
fn losing_six_times_books_a_loss() {
    let play = words(&["ABCDE", "CRANE"]);
    let valid = words(&["ABCDE", "FGHIJ"]);
    let mut state = AppState::new(vec![0; 7], (2, 4), 0, &play);
    for _ in 0..6 {
        type_word(&mut state, "FGHIJ", &play, &valid);
        assert!(matches!(state.word_status, WordStatus::Valid));
        commit_word(&mut state);
    }
    assert!(matches!(state.game, GameStatus::Lost));
    assert_eq!(state.results[6], 1);
    assert_eq!(state.streak, (0, 4));
    assert_eq!(state.word_index, 1);
    // pressing enter starts the next game on the advanced word
    input_letter(&mut state, "enter", &play, &valid);
    assert!(matches!(state.game, GameStatus::InPlay));
    assert_eq!(state.in_play, 0);
    assert_eq!(state.answer, word("CRANE"));
    assert!(state.status.iter().all(|row| row.iter().all(|&c| c == ' ')));
    assert!(state.used.is_empty());
}

#[test]
fn new_game_wraps_past_the_play_list() {
    let play = words(&["CRANE", "ROBIN"]);
    let mut state = AppState::new(vec![0; 7], (0, 0), 5, &play);
    assert_eq!(state.answer, word("ROBIN"));
    new_game(&mut state, &play);
    assert_eq!(state.answer, word("ROBIN"));
}

#[test]
fn keys_after_the_game_ends_are_ignored_but_enter_restarts() {
    let play = words(&["CRANE", "ROBIN"]);
    let valid = words(&["CRANE"]);
    let mut state = fresh(&play);
    type_word(&mut state, "CRANE", &play, &valid);
    commit_word(&mut state);
    assert!(matches!(state.game, GameStatus::Won));
    input_letter(&mut state, "a", &play, &valid);
    assert!(matches!(state.game, GameStatus::Won));
    input_letter(&mut state, "enter", &play, &valid);
    assert!(matches!(state.game, GameStatus::InPlay));
    assert_eq!(state.answer, word("ROBIN"));
}

#[test]
fn used_letters_accumulate_without_duplicates() {
    let play = words(&["CRANE"]);
    let valid = words(&["PAPER", "APPLE"]);
    let mut state = fresh(&play);
    type_word(&mut state, "PAPER", &play, &valid);
    commit_word(&mut state);
    type_word(&mut state, "APPLE", &play, &valid);
    commit_word(&mut state);
    assert_eq!(state.used, vec!['P', 'A', 'E', 'R', 'L']);
}

#[test]
fn streak_grows_and_caps_at_max() {
    let play = words(&["CRANE", "CRANE", "CRANE"]);
    let valid = words(&["CRANE"]);
    let mut state = AppState::new(vec![0; 7], (0, 5), 0, &play);
    for expect in 1..=3u32 {
        type_word(&mut state, "CRANE", &play, &valid);
        commit_word(&mut state);
        assert_eq!(state.streak, (expect, 5));
        input_letter(&mut state, "enter", &play, &valid);
    }
}

#[test]
fn exit_flag_is_reported() {
    let play = words(&["CRANE"]);
    let mut state = fresh(&play);
    assert!(!exit_ui(&state));
    state.exit_flag = true;
    assert!(exit_ui(&state));
}
