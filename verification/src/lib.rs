//! The core of a terminal word-guessing game: the scorer that classifies
//! each letter of a guess against the hidden answer, the state store whose
//! mutators turn keystrokes into guesses and book finished words, the
//! element catalogue that projects the state into styled character grids,
//! the two board animations as pure frame computations, and the three-line
//! persisted statistics record.
//!
//! The host around this library owns the terminal and the statistics file:
//! it polls events, hands them to [`rewordle_screen::handle_event`], runs
//! the loop hooks through [`rewordle_screen::on_loop_all`], draws what
//! [`rewordle_screen::on_state_all`] projects, and persists what
//! [`storage::save`] renders. The word lists are plain data handed in by
//! the host.

pub mod element;
pub mod elements;
pub mod game;
pub mod rewordle_screen;
pub mod score;
pub mod storage;
pub mod style;
pub mod text;
