//! An interactive line-editing engine for read-eval-print loops.
//!
//! The engine keeps the command that is being written, line by line, a
//! cursor in it, and a bounded history of the commands that were entered.
//! It neither reads keys nor writes to a terminal: a caller hands it each
//! [`event::Event`] and gets back a [`event::Step`], which says what to draw
//! and whether a command is complete.
//!
//! - [`text`]: characters and bytes of UTF-8 lines.
//! - [`persist`]: the text form of the history.
//! - [`history`]: the store of past commands.
//! - [`lang`]: what the engine asks of the language that is read.
//! - [`event`]: key presses, and what is drawn in answer.
//! - [`model`]: the session as a state machine.
//! - [`repl`]: the session itself, and in [`repl::keys`] what the keys do.
//! - [`laws`]: what holds of every session.

pub mod event;
pub mod history;
pub mod lang;
pub mod laws;
pub mod model;
pub mod persist;
pub mod repl;
pub mod text;

pub use lang::{DefaultLangInterface, LangInterface};
pub use repl::Repl;
