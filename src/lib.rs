//! Line-limit policy engine: decides which limit governs each file, classifies
//! files against their limits, folds findings into reports, and generates
//! baseline configurations that freeze the current state of a codebase.

pub mod baseline;
pub mod cli;
pub mod config;
pub mod glob;
pub mod laws;
pub mod matcher;
pub mod normalize;
pub mod output;
pub mod report;
