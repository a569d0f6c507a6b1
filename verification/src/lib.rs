//! Terminal diagnostics: the logic of a tool that reads the recent history of
//! a terminal, isolates the output of the last commands in it, and asks a
//! language model what went wrong.
//!
//! The library does no input or output of its own.  Its callers run the
//! subprocesses, read the environment and the network, and write to the
//! terminal; they hand the library plain values and do what it decides.
//!
//! - [`segment`] says which lines of a snapshot belong to the last commands;
//!   [`capture`] takes them out, and reads what the multiplexer, a probed
//!   shell or a diagnosed command left behind.
//! - [`prompt`] finds the shell's prompt, by which the commands are told
//!   apart.
//! - [`session`] decides what is shown and asked before anything is sent.
//! - [`diagnostics`] builds the request and reads the streamed answer, event
//!   by event; [`json`] is its view of `serde_json`.
//! - [`progress`] supervises the animation that is shown while work runs in
//!   the background.
//! - [`config`] reads the credential, [`error`] names the failures, and
//!   [`text`] holds the string functions that the others share.

pub mod capture;
pub mod config;
pub mod diagnostics;
pub mod error;
pub mod json;
pub mod model;
pub mod progress;
pub mod prompt;
pub mod segment;
pub mod session;
pub mod text;
