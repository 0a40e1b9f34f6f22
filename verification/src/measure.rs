//! The measurement resolver: derives a missing weight or length from the
//! other using a fixed conversion ratio, and caches the derived value back
//! onto the record.
//!
//! Measurements are held in fixed point, as whole millionths of a gram or of
//! a metre, so that the two conversion ratios (3.0303 grams per metre and
//! 0.33 metres per gram) are exact rationals.

use vstd::prelude::*;

use crate::errors::Error;

verus! {

/// Millionths per whole unit: a measure of `1_000_000` is one gram or one
/// metre.
pub const UNIT_SCALE: u64 = 1_000_000;

/// Grams per metre, as the exact ratio 30303 / 10000 (= 3.0303).
pub const GRAMS_PER_METRE_NUM: u64 = 30303;

/// Denominator of the grams-per-metre ratio.
pub const GRAMS_PER_METRE_DEN: u64 = 10000;

/// Metres per gram, as the exact ratio 33 / 100 (= 0.33). Kept consistent
/// with the grams-per-metre ratio: 30303 / 10000 is (almost exactly) the
/// reciprocal of 33 / 100.
pub const METRES_PER_GRAM_NUM: u64 = 33;

/// Denominator of the metres-per-gram ratio.
pub const METRES_PER_GRAM_DEN: u64 = 100;

/// Largest measure the resolver accepts as the source of a derivation,
/// so that the conversion product stays within `u64`. Five hundred million
/// grams or metres is far beyond any physical spool.
pub const MEASURE_LIMIT: u64 = 500_000_000_000_000;

/// Largest measure a resolved record can hold: the weight derived from a
/// length of `MEASURE_LIMIT`, i.e. `MEASURE_LIMIT * 30303 / 10000`.
pub const STORED_LIMIT: u64 = 1_515_150_000_000_000;

/// The weight derived from a length of `l` millionths of a metre, in
/// millionths of a gram.
pub open spec fn weight_from_length(l: int) -> int {
    l * GRAMS_PER_METRE_NUM / (GRAMS_PER_METRE_DEN as int)
}

/// The length derived from a weight of `w` millionths of a gram, in
/// millionths of a metre.
pub open spec fn length_from_weight(w: int) -> int {
    w * METRES_PER_GRAM_NUM / (METRES_PER_GRAM_DEN as int)
}

/// A pair of optional measurements: the weight and length of a spool, or the
/// weight and length consumed by one print. Either may be absent at creation;
/// the resolver fills the missing one in from the other.
#[derive(Debug, Clone, Copy)]
pub struct Measure {
    /// Weight in millionths of a gram.
    pub weight: Option<u64>,
    /// Length in millionths of a metre.
    pub length: Option<u64>,
}

impl Measure {
    /// Every present field is small enough to serve as the source of a
    /// derivation.
    pub open spec fn within_input_limit(self) -> bool {
        &&& (self.weight matches Some(w) ==> w <= MEASURE_LIMIT)
        &&& (self.length matches Some(l) ==> l <= MEASURE_LIMIT)
    }

    /// What machine arithmetic forces on `resolve_weight`: when the length is
    /// the source of the derivation, its conversion product must fit in
    /// `u64`.
    pub open spec fn weight_source_within_limit(self) -> bool {
        self.weight is None ==> (self.length matches Some(l) ==> l <= MEASURE_LIMIT)
    }

    /// What machine arithmetic forces on `resolve_length`: when the weight is
    /// the source of the derivation, its conversion product must fit in
    /// `u64`.
    pub open spec fn length_source_within_limit(self) -> bool {
        self.length is None ==> (self.weight matches Some(w) ==> w <= MEASURE_LIMIT)
    }

    /// Both measurements are present and within the stored bound: what every
    /// record holds by the time it reaches the log.
    pub open spec fn fully_resolved(self) -> bool {
        &&& self.weight matches Some(w) && w <= STORED_LIMIT
        &&& self.length matches Some(l) && l <= STORED_LIMIT
    }

    /// The weight the record carries, an absent measurement counting as
    /// zero — how the accounting sums read a record.
    pub open spec fn weight_or_zero(self) -> int {
        match self.weight {
            Some(w) => w as int,
            None => 0,
        }
    }

    /// The length the record carries, an absent measurement counting as
    /// zero — how the accounting sums read a record.
    pub open spec fn length_or_zero(self) -> int {
        match self.length {
            Some(l) => l as int,
            None => 0,
        }
    }

    /// What resolving the weight yields: the stored weight when present; the
    /// weight derived from the length, cached back onto the record, when only
    /// the length is present; `IncompleteMeasurement` when both are absent.
    pub open spec fn weight_resolution(self) -> Result<(u64, Measure), Error> {
        match self.weight {
            Some(w) => Ok((w, self)),
            None => match self.length {
                Some(l) => {
                    let w = weight_from_length(l as int) as u64;
                    Ok((w, Measure { weight: Some(w), length: self.length }))
                },
                None => Err(Error::IncompleteMeasurement),
            },
        }
    }

    /// What resolving the length yields, symmetrically to
    /// `weight_resolution`.
    pub open spec fn length_resolution(self) -> Result<(u64, Measure), Error> {
        match self.length {
            Some(l) => Ok((l, self)),
            None => match self.weight {
                Some(w) => {
                    let l = length_from_weight(w as int) as u64;
                    Ok((l, Measure { weight: self.weight, length: Some(l) }))
                },
                None => Err(Error::IncompleteMeasurement),
            },
        }
    }

    /// The record after both resolutions: each absent field filled in from
    /// the other. A record with both fields absent is unchanged, since its
    /// resolution fails instead.
    pub open spec fn resolved(self) -> Measure {
        match (self.weight, self.length) {
            (Some(w), None) => Measure {
                weight: Some(w),
                length: Some(length_from_weight(w as int) as u64),
            },
            (None, Some(l)) => Measure {
                weight: Some(weight_from_length(l as int) as u64),
                length: Some(l),
            },
            _ => self,
        }
    }

    /// Return the record's weight, deriving and caching it from the length
    /// at 3.0303 grams per metre when it is absent. Fails with
    /// `IncompleteMeasurement` exactly when both measurements are absent, and
    /// leaves the record unchanged on failure.
    pub fn resolve_weight(&mut self) -> (r: Result<u64, Error>)
        requires
            old(self).weight_source_within_limit(),
        ensures
            match r {
                Ok(w) => old(self).weight_resolution() == Ok::<(u64, Measure), Error>((
                    w,
                    *final(self),
                )),
                Err(e) => old(self).weight_resolution() == Err::<(u64, Measure), Error>(e)
                    && *final(self) == *old(self),
            },
            old(self).weight matches Some(w) ==> r == Ok::<u64, Error>(w) && *final(self) == *old(
                self,
            ),
            r is Err <==> old(self).weight is None && old(self).length is None,
    {
        match self.weight {
            Some(w) => Ok(w),
            None => match self.length {
                Some(l) => {
                    let w = l * GRAMS_PER_METRE_NUM / GRAMS_PER_METRE_DEN;
                    self.weight = Some(w);
                    Ok(w)
                },
                None => Err(Error::IncompleteMeasurement),
            },
        }
    }

    /// Return the record's length, deriving and caching it from the weight
    /// at 0.33 metres per gram when it is absent. Fails with
    /// `IncompleteMeasurement` exactly when both measurements are absent, and
    /// leaves the record unchanged on failure.
    pub fn resolve_length(&mut self) -> (r: Result<u64, Error>)
        requires
            old(self).length_source_within_limit(),
        ensures
            match r {
                Ok(l) => old(self).length_resolution() == Ok::<(u64, Measure), Error>((
                    l,
                    *final(self),
                )),
                Err(e) => old(self).length_resolution() == Err::<(u64, Measure), Error>(e)
                    && *final(self) == *old(self),
            },
            old(self).length matches Some(l) ==> r == Ok::<u64, Error>(l) && *final(self) == *old(
                self,
            ),
            r is Err <==> old(self).weight is None && old(self).length is None,
    {
        match self.length {
            Some(l) => Ok(l),
            None => match self.weight {
                Some(w) => {
                    let l = w * METRES_PER_GRAM_NUM / METRES_PER_GRAM_DEN;
                    self.length = Some(l);
                    Ok(l)
                },
                None => Err(Error::IncompleteMeasurement),
            },
        }
    }
}

/// Idempotence: resolving the weight of a record whose weight is already set
/// returns the stored weight and leaves the record unchanged, regardless of
/// the length.
pub proof fn lemma_resolve_weight_idempotent(m: Measure, w: u64)
    requires
        m.weight == Some(w),
    ensures
        m.weight_resolution() == Ok::<(u64, Measure), Error>((w, m)),
{
}

/// Idempotence: resolving the length of a record whose length is already set
/// returns the stored length and leaves the record unchanged, regardless of
/// the weight.
pub proof fn lemma_resolve_length_idempotent(m: Measure, l: u64)
    requires
        m.length == Some(l),
    ensures
        m.length_resolution() == Ok::<(u64, Measure), Error>((l, m)),
{
}

/// Round-trip consistency: on a record carrying only a length, resolving the
/// weight yields `length * 3.0303` (in fixed point: `length * 30303 / 10000`)
/// and caches it while keeping the length, and resolving the length of the
/// result returns the original length unchanged — resolving one measurement
/// does not clobber the other.
pub proof fn lemma_resolution_round_trip(m: Measure, l: u64)
    requires
        m.weight is None,
        m.length == Some(l),
        l <= MEASURE_LIMIT,
    ensures
        ({
            let w = weight_from_length(l as int) as u64;
            let resolved = Measure { weight: Some(w), length: Some(l) };
            &&& w == weight_from_length(l as int)
            &&& m.weight_resolution() == Ok::<(u64, Measure), Error>((w, resolved))
            &&& resolved.length_resolution() == Ok::<(u64, Measure), Error>((l, resolved))
        }),
{
    assert(0 <= weight_from_length(l as int) <= STORED_LIMIT);
}

} // verus!
