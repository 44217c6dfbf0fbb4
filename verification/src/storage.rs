//! The three in-memory storage engines.

pub mod block_storage;
pub mod file_storage;
pub mod object_storage;

use vstd::prelude::*;

verus! {

/// Nothing is stored under the given name. An operation that ends so leaves
/// its store as it was.
#[derive(Clone, Copy, Debug, PartialEq, Eq, Structural)]
pub struct NotFound;

/// Why a block store refused an operation. A refused operation leaves the
/// store as it was.
#[derive(Clone, Copy, Debug, PartialEq, Eq, Structural)]
pub enum BlockError {
    /// The index is not below the number of blocks.
    InvalidIndex,
    /// The payload has more bytes than the `max` that a block holds.
    TooLarge { max: usize },
}

} // verus!
