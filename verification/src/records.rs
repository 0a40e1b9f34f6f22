//! The value records owned by the storage layer: spools (rolls of filament)
//! and usage events (prints), together with the resolver methods that fill in
//! a missing measurement before a record is persisted.

use vstd::prelude::*;

use crate::errors::Error;
use crate::measure::Measure;

verus! {

/// One roll of filament. The identifier and name are assigned at creation
/// and immutable; the measurements are resolved once before the record is
/// persisted; the timestamp (whole seconds since the Unix epoch) is the
/// recency key of the active-spool selection.
#[derive(Debug, Clone)]
pub struct Spool {
    pub roll_id: u128,
    pub roll_name: String,
    pub measure: Measure,
    pub timestamp: i64,
}

/// One usage event: a print consuming filament from the active spool.
/// `roll_id` is never supplied by the caller; it is resolved at creation time
/// to the spool currently in use, and is always set by the time the record
/// reaches the log.
#[derive(Debug, Clone, Copy)]
pub struct Filament {
    pub print_id: u128,
    pub measure: Measure,
    /// Elapsed seconds of the print.
    pub print_time: u64,
    pub roll_id: Option<u128>,
}

/// The identifier of the spool currently in use.
#[derive(Debug, Clone, Copy, PartialEq, Eq, Structural)]
pub struct RollId {
    pub roll_id: u128,
}

impl Spool {
    /// A spool as stored: both measurements resolved and within bounds.
    pub open spec fn wf(self) -> bool {
        self.measure.fully_resolved()
    }

    /// The spool's weight, derived and cached from the length when absent.
    /// Fails with `IncompleteMeasurement` exactly when both measurements are
    /// absent; every other field is left untouched.
    pub fn get_weight(&mut self) -> (r: Result<u64, Error>)
        requires
            old(self).measure.weight_source_within_limit(),
        ensures
            match r {
                Ok(w) => old(self).measure.weight_resolution() == Ok::<(u64, Measure), Error>((
                    w,
                    final(self).measure,
                )),
                Err(e) => old(self).measure.weight_resolution() == Err::<(u64, Measure), Error>(e)
                    && final(self).measure == old(self).measure,
            },
            final(self).roll_id == old(self).roll_id,
            final(self).roll_name == old(self).roll_name,
            final(self).timestamp == old(self).timestamp,
    {
        let mut m = self.measure;
        let r = m.resolve_weight();
        self.measure = m;
        r
    }

    /// The spool's length, derived and cached from the weight when absent.
    /// Fails with `IncompleteMeasurement` exactly when both measurements are
    /// absent; every other field is left untouched.
    pub fn get_length(&mut self) -> (r: Result<u64, Error>)
        requires
            old(self).measure.length_source_within_limit(),
        ensures
            match r {
                Ok(l) => old(self).measure.length_resolution() == Ok::<(u64, Measure), Error>((
                    l,
                    final(self).measure,
                )),
                Err(e) => old(self).measure.length_resolution() == Err::<(u64, Measure), Error>(e)
                    && final(self).measure == old(self).measure,
            },
            final(self).roll_id == old(self).roll_id,
            final(self).roll_name == old(self).roll_name,
            final(self).timestamp == old(self).timestamp,
    {
        let mut m = self.measure;
        let r = m.resolve_length();
        self.measure = m;
        r
    }
}

impl Filament {
    /// A print as stored: both measurements resolved and within bounds, and
    /// the consumed spool assigned.
    pub open spec fn wf(self) -> bool {
        &&& self.measure.fully_resolved()
        &&& self.roll_id is Some
    }

    /// The print's consumed weight, derived and cached from the consumed
    /// length when absent. Fails with `IncompleteMeasurement` exactly when
    /// both measurements are absent; every other field is left untouched.
    pub fn get_weight(&mut self) -> (r: Result<u64, Error>)
        requires
            old(self).measure.weight_source_within_limit(),
        ensures
            match r {
                Ok(w) => old(self).measure.weight_resolution() == Ok::<(u64, Measure), Error>((
                    w,
                    final(self).measure,
                )),
                Err(e) => old(self).measure.weight_resolution() == Err::<(u64, Measure), Error>(e)
                    && final(self).measure == old(self).measure,
            },
            final(self).print_id == old(self).print_id,
            final(self).print_time == old(self).print_time,
            final(self).roll_id == old(self).roll_id,
    {
        let mut m = self.measure;
        let r = m.resolve_weight();
        self.measure = m;
        r
    }

    /// The print's consumed length, derived and cached from the consumed
    /// weight when absent. Fails with `IncompleteMeasurement` exactly when
    /// both measurements are absent; every other field is left untouched.
    pub fn get_length(&mut self) -> (r: Result<u64, Error>)
        requires
            old(self).measure.length_source_within_limit(),
        ensures
            match r {
                Ok(l) => old(self).measure.length_resolution() == Ok::<(u64, Measure), Error>((
                    l,
                    final(self).measure,
                )),
                Err(e) => old(self).measure.length_resolution() == Err::<(u64, Measure), Error>(e)
                    && final(self).measure == old(self).measure,
            },
            final(self).print_id == old(self).print_id,
            final(self).print_time == old(self).print_time,
            final(self).roll_id == old(self).roll_id,
    {
        let mut m = self.measure;
        let r = m.resolve_length();
        self.measure = m;
        r
    }
}

} // verus!
