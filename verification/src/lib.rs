//! A verified validation engine for generated HTML pages.
//!
//! The library inspects a plain, immutable model of a parsed HTML document
//! and checks it against a fixed battery of editorial-content and
//! accessibility rules.  Every rule, the extension-based dispatch, the
//! exclusion filter and the result aggregation are verified; reading files,
//! parsing HTML and the parallel fan-out over a directory tree live outside
//! the library and hand it plain values.

pub mod dispatch;
pub mod dom;
pub mod error;
pub mod exclude;
pub mod laws;
pub mod paths;
pub mod report;
pub mod rules;
pub mod scan;

pub use error::CheckError;
pub use error::Violation;
