//! Fills the gaps between sorted, disjoint ranges over `[0, end)`, so that the
//! ranges given and the gaps between them, told apart by their kind, partition
//! the whole domain.
pub mod laws;
pub mod model;
pub mod producer;

pub use model::{EveryRangeKind, GapState, Item, RangeError};
pub use producer::{EveryRange, EveryRangeIter};
