use vstd::prelude::*;

verus! {

/// Everything the migration engine can fail with.
#[derive(Clone, Copy, Debug, PartialEq, Eq, Structural)]
pub enum Error {
    /// The migration handed in lacks a field required for the requested
    /// operation: no hash or no forward SQL when applying forward, no
    /// reverse SQL when reverting.
    BadMigration,
    /// The underlying store rejected an operation: a statement failed to
    /// execute, or the bookkeeping store does not exist.
    DatabaseError,
}

} // verus!
