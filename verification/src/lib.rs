//! Planning for building a project on a remote machine: where the project
//! lives, which host builds it, which commands move the tree out, run the
//! build and bring the results back, and which exit code ends the run.

pub mod command;
pub mod config;
pub mod error;
pub mod locate;
pub mod naming;
pub mod options;
pub mod orchestrate;
pub mod retrieve;
pub mod sync;
pub mod text;
