//! Decision logic of the `nodus` package manager: git source normalization,
//! store layout, update notices and terminal reporting, each with its contract.

pub mod text;
pub mod git;
pub mod path;
pub mod execution;
pub mod report;
pub mod update_checker;
pub mod store;
pub mod store_runs;
pub mod cache;
pub mod cli;
pub mod resolver;
pub mod skills;
