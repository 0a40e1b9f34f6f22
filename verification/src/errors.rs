//! The failure taxonomy of the accounting engine.

use vstd::prelude::*;

verus! {

/// Why an accounting operation could not proceed.
#[derive(Debug, Clone, Copy, PartialEq, Eq, Structural)]
pub enum Error {
    /// Both the weight and the length of a record are absent, so neither can
    /// be derived from the other.
    IncompleteMeasurement,
    /// An operation needed the active spool, but no spool has ever been
    /// created.
    NoActiveSpool,
    /// The persistence layer rejected a read or a write.
    StorageFailure,
    /// A schema-existence check reported a table count outside {0, 1}.
    AmbiguousSchemaState,
}

} // verus!
