//! The failures that abort a whole lag computation.

use vstd::prelude::*;

verus! {

/// Why no snapshot could be produced at all.
///
/// Failures that concern a single partition never end up here: they are
/// reported next to the records, as a [`crate::lag::Diagnostic`].
#[derive(Clone, Copy, Debug, PartialEq, Eq, Structural)]
pub enum LagError {
    /// The broker could not be reached, so no topic is known.
    Connection,
    /// The broker answered, but the requested topic is not among its topics.
    TopicNotFound,
}

} // verus!
