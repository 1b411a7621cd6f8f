//! The core of cargo-chronoscope, an observer of Cargo build performance.
//!
//! - [`cli`]: what the command line asks for
//! - [`session`]: the course of a command, step by step
//! - [`git`]: the commit that a build is made from
//! - [`model`]: recorded builds and what changed between two of them
//! - [`listing`]: the table that lists recorded builds
//! - [`report`]: the report on what changed between two builds
//! - [`changes`]: which changes of crates a report shows, and in what order
//! - [`path`]: the comparison of two critical paths
//! - [`text`]: padding, decimal numbers, truncation

pub mod changes;
pub mod cli;
pub mod git;
pub mod listing;
pub mod model;
pub mod path;
pub mod report;
pub mod session;
pub mod text;
