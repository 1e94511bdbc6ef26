//! Data Station: the verified core of a small agent orchestrator.
//!
//! A manager model splits a user request into tasks; each task is handed to
//! a specialised agent whose answer feeds a tool.  This crate holds the
//! parsing, prompt filling, tool preparation and the state machines that
//! drive a run; the surrounding program performs the model calls, the
//! database access and the terminal interaction.
use vstd::prelude::*;

pub mod text;
pub mod tasks;
pub mod prompt;
pub mod tools;
pub mod ui;
pub mod client;
pub mod agent;
pub mod dispatch;

verus! {

} // verus!
