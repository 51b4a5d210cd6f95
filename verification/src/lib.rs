//! Query-string filtering driven by a small declarative rule language.
//!
//! A filter definition pairs an initial keep/drop policy with an ordered
//! sequence of include/exclude rules (literal keys or compiled regular
//! expressions). A registry maps variable names to definitions built during
//! configuration, and request-time evaluation rebuilds the subset of a raw
//! query string whose keys the definition keeps, byte for byte.

mod bytes;
pub mod directives;
pub mod errors;
pub mod query;
pub mod registry;
pub mod regex_support;
pub mod rules;
pub mod version;
