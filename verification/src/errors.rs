//! The errors that escape normal operation.

use vstd::prelude::*;

verus! {

/// Why a lookup or a mutation was refused.
#[derive(Debug, Clone, Copy, PartialEq, Eq, Structural, Hash)]
pub enum CacheError {
    /// No live record is stored under the primary key.
    PrimaryKeyNotFound,
    /// A live record is already stored under the primary key.
    PrimaryKeyExists,
}

} // verus!
