//! Verified core of a rule-driven code-review runner.
//!
//! The library plans review tasks from rules and changed files, models the
//! bounded worker scheduler with graceful shutdown, drives the per-task
//! tool-calling conversation state machine, aggregates reported violations,
//! and renders the resulting reports.  Everything here is verified; the
//! surrounding process (git, HTTP, signals, file I/O) lives outside and
//! hands the library plain values.

pub mod agent;
pub mod cli;
pub mod config;
pub mod aggregate;
pub mod gitbase;
pub mod globs;
pub mod planner;
pub mod render;
pub mod rule;
pub mod schedule;
pub mod text;
pub mod tools;
pub mod truncate;
pub mod types;
pub mod webpage;
pub mod worker;
