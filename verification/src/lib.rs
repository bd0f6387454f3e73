//! Comparative frame-rate benchmarking across revisions: metric extraction
//! from captured log text, the result store, and the comparison table with
//! its markdown rendering.

pub mod config;
pub mod driver;
pub mod extract;
pub mod metric;
pub mod report;
pub mod results;
pub mod table;
pub mod text;
