//! Matching-and-clustering core of a network fingerprinting engine.
//!
//! Detection templates carry matchers and extractors over named parts of a
//! probed request or response; this crate evaluates them (AND/OR conditions,
//! negation, short-circuiting, version extraction) and groups templates whose
//! probe definitions are identical into single executable clusters.
use vstd::prelude::*;

pub mod execute;
pub mod extractors;
pub mod info;
pub mod laws;
pub mod matchers;
pub mod operators;
pub mod patterns;
pub mod strings;
pub mod target;

verus! {

/// The failures the evaluation engine can report.
///
/// A missing part or a missing favicon map aborts one operator block; an
/// invalid pattern is rejected when a template is compiled.
#[derive(Clone, Copy, Debug, PartialEq, Eq, Structural)]
pub enum Error {
    /// A pattern did not compile when the template was loaded.
    RegexCompile,
    /// The requested content part cannot be produced from this target.
    PartUnavailable,
    /// Response metadata is present but carries no favicon hash map.
    FaviconMapMissing,
}

} // verus!
