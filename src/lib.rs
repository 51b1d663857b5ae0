//! The state machine of a single answer-set solving session, and the pieces around it that
//! decide rather than solve: which operation may run in which phase, how assumption and
//! external symbols resolve to program atoms, how a model is framed as bytes, how a tree of
//! configuration overrides is written over the engine's configuration, and how request
//! bodies are read.
//!
//! The engine itself is driven by the caller, which holds its handles, asks the session
//! before each operation and reports back once the engine has done its part.

pub mod config;
pub mod convert;
pub mod error;
pub mod lookup;
pub mod model;
pub mod results;
pub mod session;
