//! Runs the fenced code blocks of a markdown document as a sequence of test steps.
pub mod text;
pub mod directive;
pub mod scanner;
pub mod step;
pub mod executor;
pub mod laws;
