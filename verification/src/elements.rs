//! The element catalogue: one module per visual element, each with its
//! build function and the pure hooks the host loop drives.

pub mod animators;
pub mod answer;
pub mod board;
pub mod button_exit;
pub mod button_next;
pub mod centered_modal;
pub mod delete_key;
pub mod enter_key;
pub mod graphs;
pub mod keyboard;
pub mod results;
pub mod screen;
pub mod title_bar;
