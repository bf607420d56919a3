//! A modal, chord-based key-sequence resolution engine, together with the
//! task-tracking data model it serves.
//!
//! Raw key presses are normalized into [`keys::Key`] values, accumulated in a
//! pending queue, and resolved against a per-mode binding trie
//! ([`keybindings::KeyBinds`]) into application [`commands::Command`]s —
//! deferring while a longer chord is still possible and forcing a decision
//! once the idle timeout elapses ([`input::InputState`]). The laws the
//! resolution obeys are stated and proved in [`laws`]. The [`cosmos`] module
//! holds the record model the commands ultimately operate on.

pub mod cli;
pub mod commands;
pub mod cosmos;
pub mod input;
pub mod keybindings;
pub mod keys;
pub mod laws;
pub mod matcher;
pub mod queue;
pub mod task;
