//! A line-oriented, rule-driven analyzer of source text. Given a text and
//! the language it is written in, it reports the lines that match a rule,
//! each with the line that the rule suggests in its place, and ranks the
//! findings by confidence.
//!
//! The rules match by plain text: a line holds, begins with or ends with a
//! given text. Nothing is parsed.

pub mod analysis;
pub mod catalog;
pub mod config;
pub mod detect;
pub mod laws;
pub mod matcher;
pub mod model;
pub mod optimizer;
pub mod ranking;
pub mod rewriter;
pub mod text;

pub use config::OptimizerConfig;
pub use detect::detect_language_from_path;
pub use model::{Language, Optimization, OptimizationRule, PatternType, Severity};
pub use optimizer::CodeOptimizer;
