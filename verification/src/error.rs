//! The ways in which an operation of the service fails.

use vstd::prelude::*;

verus! {

/// Why an operation did not succeed.
#[derive(Clone, Copy, Debug, PartialEq, Eq, Structural)]
pub enum ServiceError {
    /// The key has no row.
    NotFound,
    /// The key already has a row, and the operation only adds new ones.
    Conflict,
    /// The store refused a write, and nothing was changed.
    StorageFailure,
    /// The store refused a write after earlier writes of the same operation
    /// had gone through; those stay.
    PartialUpdate,
}

} // verus!
