//! Turns the line-oriented output of a test runner into structured,
//! human-readable results: one record per test, carrying an optional
//! enclosing-module path, a humanized test name, and a pass/fail/ignored
//! status.

pub mod modpath;
pub mod parse;
pub mod prettify;
pub mod record;
pub mod text;

pub use crate::modpath::prettify_module;
pub use crate::parse::parse_line;
pub use crate::parse::parse_test_results;
pub use crate::prettify::prettify;
pub use crate::record::ParseError;
pub use crate::record::Status;
pub use crate::record::TestResult;
