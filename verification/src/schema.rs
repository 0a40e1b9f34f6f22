//! The schema-existence decision: what a table count reported by the storage
//! catalogue means for the idempotent one-time table setup.

use vstd::prelude::*;

use crate::errors::Error;

verus! {

/// Whether a table already exists in the stored schema.
#[derive(Debug, Clone, Copy, PartialEq, Eq, Structural)]
pub enum TableStatus {
    /// No catalogue entry: the table must be created.
    Missing,
    /// Exactly one catalogue entry: the table is kept as it is.
    Present,
}

/// Interpret the number of catalogue entries found under a table's name:
/// zero means the table must be created, one means it already exists, and
/// any other count is corrupted metadata, reported as
/// `AmbiguousSchemaState`.
pub fn interpret_table_count(count: i64) -> (r: Result<TableStatus, Error>)
    ensures
        count == 0 ==> r == Ok::<TableStatus, Error>(TableStatus::Missing),
        count == 1 ==> r == Ok::<TableStatus, Error>(TableStatus::Present),
        !(count == 0 || count == 1) ==> r == Err::<TableStatus, Error>(
            Error::AmbiguousSchemaState,
        ),
{
    match count {
        0 => Ok(TableStatus::Missing),
        1 => Ok(TableStatus::Present),
        _ => Err(Error::AmbiguousSchemaState),
    }
}

} // verus!
