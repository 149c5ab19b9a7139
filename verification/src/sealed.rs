//! The supertrait that keeps `Storage` closed to the storage types of this crate.

use vstd::prelude::*;

verus! {

/// Implemented only by the storage types of this crate; it cannot be named from outside.
pub trait StorageBase: Send {}

} // verus!
