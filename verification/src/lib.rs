//! An interactive session of Gleam: lines are read, compiled in the midst of what
//! was defined before, and evaluated by an Erlang shell.
//!
//! The library holds what is decided and computed. It reads and writes nothing: where
//! something has to be done outside, a function says what, and another takes the
//! outcome.
//!
//! - [`setup`]: what is decided before a session starts;
//! - [`prompt`]: what is done with each line that is read;
//! - [`repl`]: what a session holds, and the source that it makes, of which
//!   [`repl::source_laws`] says what it holds; [`repl::turn`] runs a line,
//!   [`repl::replay`] one whose answers are at hand; [`repl::turn_laws`],
//!   [`repl::line_laws`] and [`repl::outcome_laws`] say what holds of that;
//! - [`syntax`] and [`compiled`]: what a session looks at in parsed and in compiled
//!   code;
//! - [`erlang`]: what is said to the shell;
//! - [`expect`]: waiting for the shell's answer, and [`expect_in`] a whole wait on input
//!   that is at hand; [`expect_laws`] says what holds of a wait;
//! - [`buffer`], [`table`] and [`text`]: what these are built from; [`text_laws`] says
//!   what holds of cutting and joining text.

pub mod buffer;
pub mod compiled;
pub mod erlang;
pub mod expect;
pub mod expect_in;
pub mod expect_laws;
pub mod prompt;
pub mod repl;
pub mod setup;
pub mod syntax;
pub mod table;
pub mod text;
pub mod text_laws;
