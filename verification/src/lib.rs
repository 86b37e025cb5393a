//! A line-oriented search filter over logical records.
//!
//! A logical record is a primary line together with the continuation lines
//! that directly follow it. Records are assembled one at a time, decorated
//! with optional prefixes, and tested against a set of search patterns.

pub mod format;
pub mod patterns;
pub mod assembler;
pub mod scan;
