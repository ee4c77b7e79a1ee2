//! A small version-control tool's storage layer: the path-to-hash log, the
//! commit log, command-line parsing and the decisions taken while adding files.

pub mod text;
pub mod path_to_hash;
pub mod utils;
pub mod example;
pub mod storage;
pub mod commands;
pub mod parser;
pub mod record;
