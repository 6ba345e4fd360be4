//! Extraction of filtered git history and preparation of project summaries.

pub mod author;
pub mod checkpoint;
pub mod chunks;
pub mod claude;
pub mod clone;
pub mod diff;
pub mod diff_analyze;
pub mod diff_line;
pub mod diffanalyzer;
pub mod input;
pub mod order;
pub mod stats;
pub mod text;
