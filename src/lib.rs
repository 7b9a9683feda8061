//! Runs a set of shell commands concurrently under a concurrency cap, with
//! kill cascades, restart-on-spawn-failure and live or grouped output.
//!
//! The library holds the decisions: how command text is rewritten and named,
//! which tasks the scheduler admits, what a task supervisor does on each
//! event, how control signals cascade, and in which order output is shown.
//! The program around it performs the process launches, waits and prints.

pub mod arg_parser;
pub mod command;
pub mod command_parser;
pub mod control;
pub mod logger;
pub mod message;
pub mod messenger;
pub mod scheduler;
pub mod task;
pub mod text;
