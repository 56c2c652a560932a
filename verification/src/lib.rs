//! A move-selection harness that sits in front of a strong external chess
//! engine spoken to over the text-based universal chess interface protocol.
//!
//! The library holds everything that can be reasoned about without touching
//! a pipe: the score model and its total order, the line protocol and its
//! parser, the per-move evaluation pipeline, the decision policies, and the
//! session state machine.  The thin shell that owns the child process and
//! the standard streams lives outside and only calls in.

pub mod board;
pub mod config;
pub mod engine;
pub mod game;
pub mod mode;
pub mod protocol;
pub mod score;
pub mod stockfish;
pub mod text;
