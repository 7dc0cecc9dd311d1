//! Core of an interactive typing-speed exercise: word sampling, input
//! consumption, timing, scoring, and the play/finish/exit state machine.
//! Terminal rendering, key-event decoding and argument parsing are external
//! collaborators and live outside this library.

pub mod app;
pub mod args;
