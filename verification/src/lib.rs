//! Fine-grained line counting for Rust source files.
//!
//! The crate measures how many non-blank lines a file holds and how many of
//! them belong to each function, method, type definition and other top-level
//! element, and it can narrow a report down to the files and functions that
//! exceed configured limits.
//!
//! A file comes in as its text and its syntax tree ([`syntax`]). The walk
//! over the tree ([`collector`]) measures each element against the lines of
//! the text ([`text`], [`span`]); the result is the file's summary
//! ([`analyze`], [`summary`]) with the ranking of its largest functions
//! ([`ranking`]). Summaries of many files make a report ([`scan`],
//! [`output`]), which can be narrowed to what exceeds given limits
//! ([`offenders`]). Reading files and printing reports is left to the
//! caller.

pub mod analyze;
pub mod cli;
pub mod collector;
pub mod config;
pub mod display;
pub mod driver;
pub mod language;
pub mod offenders;
pub mod output;
pub mod paths;
pub mod patterns;
pub mod ranking;
pub mod scan;
pub mod sorting;
pub mod span;
pub mod summary;
pub mod syntax;
pub mod text;
