//! Reports which Cargo packages were recompiled and why.

pub mod build_log;
pub mod cargo;
pub mod cli;
pub mod engine;
pub mod explain;
pub mod laws;
pub mod message;
pub mod ordered;
pub mod parse;
pub mod raw_line;
pub mod report;
pub mod style;
pub mod text;
