//! Decision logic of the Rugix Ctrl device lifecycle manager.
//!
//! Every function of this crate is executable and verified. It decides what has
//! to happen on a device: which steps an update takes, which application
//! generation is activated, which boot group comes next, which state is kept.
//! The program around it performs the steps and reports their outcomes back.

pub mod apps;
pub mod cli;
pub mod components;
pub mod config;
pub mod daemon;
pub mod digest;
pub mod http_runs;
pub mod http_source;
pub mod init;
pub mod operations;
pub mod order;
pub mod path;
pub mod run;
pub mod script;
pub mod simulation;
pub mod state;
pub mod system;
pub mod system_state;
pub mod text;
pub mod time;
pub mod utils;
