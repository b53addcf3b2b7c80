//! Smoke tests for HTTP endpoints: a configuration names environments and paths, every
//! path is requested on every selected environment, each response is judged pass or fail,
//! and the results are reported as tables and exported as CSV.
//!
//! `plan` turns a configuration into batches of probes, `outcome` judges what a probe got
//! back, `order` splits and sorts results, `report` renders the tables and `export` the CSV.

pub mod config;
pub mod export;
pub mod order;
pub mod outcome;
pub mod plan;
pub mod report;
pub mod text;
