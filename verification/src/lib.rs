//! Checks the examples in a documentation against a live interpreter.
//!
//! An interactive example is replayed in a session of the interpreter: each
//! query is written to it, and what it writes back must show the expected
//! result. An expression example is evaluated in one go, and must not fail.
//!
//! The library holds every decision of such a run and none of its effects:
//! [`state::State`] is the reducer that takes what happened as events and
//! says what is to be done next; [`session`] is the protocol of one session,
//! byte by byte; [`repl::driver`] and [`expression`] keep the books of the
//! processes that a program runs for it; [`examples`] finds the examples in
//! the documents. What holds of every run is stated and proved in [`laws`].

pub mod clear_line;
pub mod error;
pub mod event;
pub mod example_id;
pub mod examples;
pub mod expression;
pub mod laws;
pub mod repl;
pub mod sanitize;
pub mod session;
pub mod state;
pub mod table;
pub mod text;
