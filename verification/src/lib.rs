//! Scan a SCIP code-intelligence index for the occurrences of chosen symbols
//! in one chosen document, and render each occurrence's position as
//! 1-indexed `line:column` text.

pub mod error;
pub mod index;
pub mod query;
pub mod range;
pub mod text;
