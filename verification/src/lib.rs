//! Core of a keyboard/mouse macro recorder.
//!
//! A raw, timestamped stream of low-level input events (key transitions,
//! relative pointer motion, scroll ticks) is compressed into a linear
//! sequence of hold states — each a duration plus a snapshot of held keys
//! and accumulated motion — and expanded back into an event stream for
//! playback. A small keymap renders keycodes as human-readable names.

pub mod keymap;
pub mod laws;
pub mod state;
