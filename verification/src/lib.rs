//! Repository auditing logic: repository list navigation and search, cargo
//! install checks, git status parsing and the fetch pipeline's decisions.
use vstd::prelude::*;

pub mod text;
pub mod json;
pub mod order;
pub mod types;
pub mod rows;
pub mod config;
pub mod workflows;
pub mod app;
pub mod app_cargo_ng;
pub mod app_polls;
pub mod app_search;
pub mod bin_check;
pub mod cargo_log;
pub mod cargo_install;
pub mod cargo_checks;
pub mod cargo_git;
pub mod cargo_bins;
pub mod git_status;
pub mod git_ops;
pub mod phase3;
pub mod poll_events;
pub mod fetch;
pub mod fetch_run;
pub mod pipeline;
pub mod history;

verus! {
} // verus!
