//! A rope: a binary tree over a sequence of character units that supports
//! efficient insertion, removal and range queries on large text.
//!
//! The tree adjusts itself after every mutation: a leaf holding more than
//! [`rope::SPLIT_LENGTH`] units is split in two, and an internal node whose
//! combined children fall below [`rope::JOIN_LENGTH`] units collapses back
//! into a single leaf.  Positions and lengths are code-point indices into
//! the flattened sequence.

pub mod rope;
pub mod units;
