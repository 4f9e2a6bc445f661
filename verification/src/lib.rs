//! A small line-oriented pattern search: scan text line by line for a regular
//! expression and report each matching line with the match highlighted.

pub mod config;
pub mod error;
pub mod format;
pub mod lines;
pub mod paint;
pub mod pattern;
pub mod strategy;
pub mod text;
