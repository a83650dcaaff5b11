//! A guarded workspace for a local tool-using agent: limits on the commands
//! it runs, the rules that keep its file access inside one directory, the
//! conversation it keeps, and the decisions of its main loop.

pub mod runner;
pub mod text;
pub mod path;
pub mod guard;
pub mod session;
pub mod tools;
pub mod display;
pub mod cli;
pub mod agent;
