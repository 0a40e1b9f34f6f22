//! Accounting engine for tracking consumable filament spools against usage
//! events, deriving missing measurements from a fixed conversion ratio,
//! selecting the active spool, and computing remaining and lifetime totals.

pub mod clock;
pub mod errors;
pub mod measure;
pub mod records;
pub mod schema;
pub mod tracker;
