//! A terminal typing-practice core: target-string generation, an interactive
//! session state machine over per-key events, keystroke-derived metrics, and a
//! retry controller gated on configurable minimums.
//!
//! Text is represented as `Vec<char>` so that every rule over characters is
//! stated and proved at the character level; callers convert to and from
//! `String` at the terminal boundary.

pub mod control;
pub mod generate;
pub mod metrics;
pub mod session;
pub mod text;
