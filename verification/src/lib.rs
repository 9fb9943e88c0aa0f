//! A word-guessing game engine: a hidden word, per-letter feedback on each
//! guess, a keyboard-wide summary of what is known about every letter, a
//! session state machine and a time-based score.

pub mod letters;
pub mod keyboard;
pub mod pick_word;
pub mod timing;
pub mod game;
pub mod input;
pub mod session;

pub use game::{GameType, Msg, Props, SubmittedGuess};
pub use input::handle_keypress;
pub use keyboard::{KeyStatus, Keyboard};
pub use letters::{contains_letter, evaluate, Classification};
pub use pick_word::{gen, unlimited, WordList, WordListError};
pub use session::Twordle;
pub use timing::{format_elapsed, score};
