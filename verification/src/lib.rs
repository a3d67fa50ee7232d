//! The state and the decisions of a terminal multiplexer: windows, keys, program output,
//! window sizes, what is drawn, and how the event loop goes on. Descriptors, polling and
//! signals belong to the program around it.

pub mod bytes;
pub mod calls;
pub mod draw;
pub mod keys;
pub mod mux;
pub mod output;
pub mod pty;
pub mod run;
pub mod screen;
pub mod size;
pub mod sys;
