//! A small number-guessing library.
//!
//! One secret integer in `[1, 100]` is drawn at the start of a run. Each
//! round a line of text is parsed as an unsigned guess and compared with the
//! secret; the round reports whether the guess was too small, too big, or a
//! win, and the game ends exactly on a win. Malformed input is silently
//! ignored and the round is retried.

pub mod demos;
pub mod game;
pub mod parse;
pub mod words;
