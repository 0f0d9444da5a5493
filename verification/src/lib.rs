//! The part of tmux-thumbs that talks to tmux: it captures the active pane, runs thumbs
//! on its content in a pane that takes its place for a while, and acts upon what the
//! user selects there.
//!
//! `swapper` holds the session. What its steps run and how they change its state is
//! said in `state`, over the texts of `commands`, `capture`, `options`, `selection`,
//! `clipboard` and `quote`. `shell` runs commands and keeps the record of them. `laws`
//! and `waits` state what holds of a session as a whole; `steps`, `starting` and `acting`
//! state what capturing the pane, starting thumbs and acting upon the selection come to.

pub mod acting;
pub mod capture;
pub mod clipboard;
pub mod commands;
pub mod defaults;
pub mod error;
pub mod laws;
pub mod number;
pub mod options;
pub mod pane;
pub mod quote;
pub mod selection;
pub mod shell;
pub mod starting;
pub mod state;
pub mod steps;
pub mod swapper;
pub mod text;
pub mod waits;
