//! The curated model catalog's vocabulary.
use vstd::prelude::*;

verus! {

/// Model category. Controls which models are surfaced to the user:
/// `Advanced` models (32B) are only shown on systems with sufficient RAM.
#[derive(Debug, Clone, Copy, PartialEq, Eq, Structural)]
pub enum Category {
    Recommended,
    Advanced,
}

} // verus!
