//! The accounting engine proper: an append-only log of spools and prints,
//! the active-spool selector, and the remaining / lifetime queries.

use vstd::prelude::*;

use crate::errors::Error;
use crate::measure::Measure;
use crate::measure::STORED_LIMIT;
use crate::records::Filament;
use crate::records::RollId;
use crate::records::Spool;

verus! {

/// The index of the active spool in a non-empty log: the record with the
/// greatest creation timestamp. A tie at one-second resolution is broken
/// deterministically in favour of the latest-appended record — creating a
/// spool supersedes every earlier one, including one created in the same
/// second.
pub open spec fn active_index(spools: Seq<Spool>) -> int
    decreases spools.len(),
{
    if spools.len() <= 1 {
        0
    } else {
        let prev = active_index(spools.drop_last());
        if spools.last().timestamp >= spools[prev].timestamp {
            spools.len() - 1
        } else {
            prev
        }
    }
}

/// The selected index is a real index of the log.
pub proof fn lemma_active_index_in_range(spools: Seq<Spool>)
    requires
        spools.len() > 0,
    ensures
        0 <= active_index(spools) < spools.len(),
    decreases spools.len(),
{
    if spools.len() > 1 {
        lemma_active_index_in_range(spools.drop_last());
    }
}

/// Recency selection: the active spool carries the greatest creation
/// timestamp of the whole log, and every record appended after it has a
/// strictly smaller timestamp, so among records sharing the maximum the
/// latest-appended one is selected.
pub proof fn lemma_active_spool_most_recent(spools: Seq<Spool>)
    requires
        spools.len() > 0,
    ensures
        0 <= active_index(spools) < spools.len(),
        forall|j: int|
            0 <= j < spools.len() ==> (#[trigger] spools[j].timestamp)
                <= spools[active_index(spools)].timestamp,
        forall|j: int|
            active_index(spools) < j < spools.len() ==> (#[trigger] spools[j].timestamp)
                < spools[active_index(spools)].timestamp,
    decreases spools.len(),
{
    lemma_active_index_in_range(spools);
    if spools.len() > 1 {
        lemma_active_spool_most_recent(spools.drop_last());
        assert(forall|j: int|
            0 <= j < spools.len() - 1 ==> spools.drop_last()[j] == spools[j]);
    }
}

/// Recency selection for a pair: given a spool `a` created strictly before a
/// spool `b`, the selector picks `b`.
pub proof fn lemma_recency_two_spools(a: Spool, b: Spool)
    requires
        a.timestamp < b.timestamp,
    ensures
        active_index(seq![a, b]) == 1,
{
    let s = seq![a, b];
    assert(s.drop_last() =~= seq![a]);
    assert(active_index(s.drop_last()) == 0);
    assert(s.last() == b && s[0] == a);
}

/// The weight one print contributes to the consumption of spool `roll`: its
/// consumed weight when it was recorded against that spool, zero otherwise.
pub open spec fn weight_used_by(p: Filament, roll: u128) -> int {
    if p.roll_id == Some(roll) {
        p.measure.weight_or_zero()
    } else {
        0
    }
}

/// The length one print contributes to the consumption of spool `roll`.
pub open spec fn length_used_by(p: Filament, roll: u128) -> int {
    if p.roll_id == Some(roll) {
        p.measure.length_or_zero()
    } else {
        0
    }
}

/// Total weight consumed from spool `roll` across a log of prints.
pub open spec fn used_weight(prints: Seq<Filament>, roll: u128) -> int
    decreases prints.len(),
{
    if prints.len() == 0 {
        0
    } else {
        used_weight(prints.drop_last(), roll) + weight_used_by(prints.last(), roll)
    }
}

/// Total length consumed from spool `roll` across a log of prints.
pub open spec fn used_length(prints: Seq<Filament>, roll: u128) -> int
    decreases prints.len(),
{
    if prints.len() == 0 {
        0
    } else {
        used_length(prints.drop_last(), roll) + length_used_by(prints.last(), roll)
    }
}

/// Lifetime weight consumed across all prints, regardless of spool.
pub open spec fn total_weight(prints: Seq<Filament>) -> int
    decreases prints.len(),
{
    if prints.len() == 0 {
        0
    } else {
        total_weight(prints.drop_last()) + prints.last().measure.weight_or_zero()
    }
}

/// Lifetime length consumed across all prints, regardless of spool.
pub open spec fn total_length(prints: Seq<Filament>) -> int
    decreases prints.len(),
{
    if prints.len() == 0 {
        0
    } else {
        total_length(prints.drop_last()) + prints.last().measure.length_or_zero()
    }
}

/// Lifetime print time in seconds across all prints.
pub open spec fn total_time(prints: Seq<Filament>) -> int
    decreases prints.len(),
{
    if prints.len() == 0 {
        0
    } else {
        total_time(prints.drop_last()) + prints.last().print_time
    }
}

/// The persisted state of the tracker: two append-only logs. The only
/// mutations are appending a record and the one-time fill-in of a missing
/// measurement performed before the record is stored.
pub struct Tracker {
    pub spools: Vec<Spool>,
    pub prints: Vec<Filament>,
}

impl Tracker {
    /// Every stored record is fully resolved and within bounds.
    pub open spec fn wf(self) -> bool {
        &&& forall|i: int| 0 <= i < self.spools@.len() ==> (#[trigger] self.spools@[i]).wf()
        &&& forall|i: int| 0 <= i < self.prints@.len() ==> (#[trigger] self.prints@[i]).wf()
    }

    /// A tracker with no spool ever created and no print recorded.
    pub fn new() -> (t: Tracker)
        ensures
            t.spools@.len() == 0,
            t.prints@.len() == 0,
            t.wf(),
    {
        Tracker { spools: Vec::new(), prints: Vec::new() }
    }

    /// The position of the active spool in the log, or `None` on an empty
    /// log.
    fn active_slot(&self) -> (r: Option<usize>)
        ensures
            match r {
                Some(i) => self.spools@.len() > 0 && i == active_index(self.spools@)
                    && i < self.spools@.len(),
                None => self.spools@.len() == 0,
            },
    {
        if self.spools.len() == 0 {
            return None;
        }
        let mut best: usize = 0;
        let mut i: usize = 1;
        while i < self.spools.len()
            invariant
                1 <= i <= self.spools@.len(),
                0 <= best < i,
                best == active_index(self.spools@.take(i as int)),
            decreases self.spools@.len() - i,
        {
            proof {
                assert(self.spools@.take(i as int + 1).drop_last() =~= self.spools@.take(i as int));
                assert(self.spools@.take(i as int + 1).last() == self.spools@[i as int]);
            }
            if self.spools[i].timestamp >= self.spools[best].timestamp {
                best = i;
            }
            i = i + 1;
        }
        proof {
            assert(self.spools@.take(self.spools@.len() as int) =~= self.spools@);
        }
        Some(best)
    }

    /// The identifier of the spool currently in use: the one with the
    /// greatest creation timestamp, the latest-appended record winning a
    /// tie. Fails with `NoActiveSpool` exactly when no spool has ever been
    /// created.
    pub fn get_current_spool(&self) -> (r: Result<RollId, Error>)
        ensures
            match r {
                Ok(rid) => self.spools@.len() > 0 && rid.roll_id == self.spools@[active_index(
                    self.spools@,
                )].roll_id,
                Err(e) => self.spools@.len() == 0 && e == Error::NoActiveSpool,
            },
    {
        match self.active_slot() {
            Some(i) => Ok(RollId { roll_id: self.spools[i].roll_id }),
            None => Err(Error::NoActiveSpool),
        }
    }

    /// Open a newly created spool: resolve both of its measurements and
    /// append it to the log, where it becomes the active spool. Fails with
    /// `IncompleteMeasurement` exactly when both measurements are absent, and
    /// then stores nothing. Returns the number of records stored.
    pub fn open_new_spool(&mut self, spool: Spool) -> (r: Result<usize, Error>)
        requires
            old(self).wf(),
            spool.measure.within_input_limit(),
        ensures
            final(self).wf(),
            final(self).prints@ == old(self).prints@,
            match r {
                Ok(n) => {
                    &&& n == 1
                    &&& final(self).spools@ == old(self).spools@.push(
                        Spool { measure: spool.measure.resolved(), ..spool },
                    )
                },
                Err(e) => {
                    &&& e == Error::IncompleteMeasurement
                    &&& final(self).spools@ == old(self).spools@
                },
            },
            r is Ok <==> spool.measure.weight is Some || spool.measure.length is Some,
    {
        let mut spool = spool;
        match spool.get_weight() {
            Ok(_) => {},
            Err(e) => {
                return Err(e);
            },
        }
        let resolved_length = spool.get_length();
        match resolved_length {
            Ok(_) => {},
            Err(e) => {
                // Unreachable: the weight is present once `get_weight`
                // succeeded, so the length resolution cannot fail.
                return Err(e);
            },
        }
        proof {
            lemma_wf_after_push_spool(old(self).spools@, spool);
        }
        self.spools.push(spool);
        Ok(1)
    }

    /// Record a print: assign it to the spool currently in use, resolve both
    /// of its measurements, and append it to the log. Fails with
    /// `NoActiveSpool` when no spool has ever been created, then with
    /// `IncompleteMeasurement` when both measurements are absent; on failure
    /// nothing is stored. Returns the number of records stored.
    pub fn add_new_print(&mut self, print: Filament) -> (r: Result<usize, Error>)
        requires
            old(self).wf(),
            print.measure.within_input_limit(),
        ensures
            final(self).wf(),
            final(self).spools@ == old(self).spools@,
            match r {
                Ok(n) => {
                    &&& n == 1
                    &&& old(self).spools@.len() > 0
                    &&& final(self).prints@ == old(self).prints@.push(
                        Filament {
                            measure: print.measure.resolved(),
                            roll_id: Some(
                                old(self).spools@[active_index(old(self).spools@)].roll_id,
                            ),
                            ..print
                        },
                    )
                },
                Err(e) => {
                    &&& final(self).prints@ == old(self).prints@
                    &&& (e == Error::NoActiveSpool <==> old(self).spools@.len() == 0)
                    &&& (e == Error::IncompleteMeasurement <==> old(self).spools@.len() > 0
                        && print.measure.weight is None && print.measure.length is None)
                },
            },
            r is Ok <==> old(self).spools@.len() > 0 && (print.measure.weight is Some
                || print.measure.length is Some),
    {
        let active = match self.get_current_spool() {
            Ok(rid) => rid,
            Err(e) => {
                return Err(e);
            },
        };
        let mut print = print;
        print.roll_id = Some(active.roll_id);
        match print.get_weight() {
            Ok(_) => {},
            Err(e) => {
                return Err(e);
            },
        }
        let resolved_length = print.get_length();
        match resolved_length {
            Ok(_) => {},
            Err(e) => {
                // Unreachable: the weight is present once `get_weight`
                // succeeded, so the length resolution cannot fail.
                return Err(e);
            },
        }
        proof {
            lemma_wf_after_push_print(old(self).prints@, print);
        }
        self.prints.push(print);
        Ok(1)
    }

    /// Remaining capacity of the active spool: its stored weight and length
    /// minus the weight and length consumed by the prints recorded against
    /// it. The result may be negative: over-consumption is a valid,
    /// reportable state, not clamped or rejected. Fails with `NoActiveSpool`
    /// exactly when no spool has ever been created.
    #[verifier::loop_isolation(false)]
    pub fn check_remaining(&self) -> (r: Result<(i128, i128), Error>)
        requires
            self.wf(),
        ensures
            match r {
                Ok(rem) => {
                    &&& self.spools@.len() > 0
                    &&& ({
                        let s = self.spools@[active_index(self.spools@)];
                        &&& rem.0 == s.measure.weight_or_zero() - used_weight(
                            self.prints@,
                            s.roll_id,
                        )
                        &&& rem.1 == s.measure.length_or_zero() - used_length(
                            self.prints@,
                            s.roll_id,
                        )
                    })
                },
                Err(e) => self.spools@.len() == 0 && e == Error::NoActiveSpool,
            },
    {
        let slot = match self.active_slot() {
            Some(i) => i,
            None => {
                return Err(Error::NoActiveSpool);
            },
        };
        let roll = self.spools[slot].roll_id;
        let spool_w = match self.spools[slot].measure.weight {
            Some(w) => w,
            None => 0,
        };
        let spool_l = match self.spools[slot].measure.length {
            Some(l) => l,
            None => 0,
        };
        let n = self.prints.len();
        let mut used_w: u128 = 0;
        let mut used_l: u128 = 0;
        let mut i: usize = 0;
        while i < n
            invariant
                i <= n,
                used_w == used_weight(self.prints@.take(i as int), roll),
                used_w <= (i as int) * (STORED_LIMIT as int),
                used_l == used_length(self.prints@.take(i as int), roll),
                used_l <= (i as int) * (STORED_LIMIT as int),
            decreases n - i,
        {
            let p = self.prints[i];
            let w_add: u64 = match p.roll_id {
                Some(rid) => if rid == roll {
                    match p.measure.weight {
                        Some(w) => w,
                        None => 0,
                    }
                } else {
                    0
                },
                None => 0,
            };
            let l_add: u64 = match p.roll_id {
                Some(rid) => if rid == roll {
                    match p.measure.length {
                        Some(l) => l,
                        None => 0,
                    }
                } else {
                    0
                },
                None => 0,
            };
            proof {
                assert(self.prints@.take(i as int + 1).drop_last() =~= self.prints@.take(
                    i as int,
                ));
                assert(self.prints@.take(i as int + 1).last() == self.prints@[i as int]);
                assert(w_add as int == weight_used_by(p, roll));
                assert(l_add as int == length_used_by(p, roll));
                assert(w_add <= STORED_LIMIT && l_add <= STORED_LIMIT);
                assert((i as int) * (STORED_LIMIT as int) + (STORED_LIMIT as int) == (i as int
                    + 1) * (STORED_LIMIT as int) && (i as int + 1) * (STORED_LIMIT as int) <= (
                u64::MAX as int) * (STORED_LIMIT as int)) by (nonlinear_arith)
                    requires
                        0 <= i as int,
                        i as int + 1 <= u64::MAX as int,
                ;
            }
            used_w = used_w + w_add as u128;
            used_l = used_l + l_add as u128;
            i = i + 1;
        }
        proof {
            assert(self.prints@.take(n as int) =~= self.prints@);
            assert((n as int) * (STORED_LIMIT as int) <= (u64::MAX as int) * (
            STORED_LIMIT as int)) by (nonlinear_arith)
                requires
                    0 <= n as int <= u64::MAX as int,
            ;
        }
        let remaining_weight: i128 = spool_w as i128 - used_w as i128;
        let remaining_length: i128 = spool_l as i128 - used_l as i128;
        Ok((remaining_weight, remaining_length))
    }

    /// Lifetime totals across every print ever recorded, regardless of
    /// spool: consumed weight, consumed length, and print time in seconds.
    /// An empty log yields zeroes rather than failing.
    #[verifier::loop_isolation(false)]
    pub fn lifetime_statistics(&self) -> (r: (u128, u128, u128))
        ensures
            r.0 == total_weight(self.prints@),
            r.1 == total_length(self.prints@),
            r.2 == total_time(self.prints@),
    {
        let n = self.prints.len();
        let mut w: u128 = 0;
        let mut l: u128 = 0;
        let mut t: u128 = 0;
        let mut i: usize = 0;
        while i < n
            invariant
                i <= n,
                w == total_weight(self.prints@.take(i as int)),
                w <= (i as int) * (u64::MAX as int),
                l == total_length(self.prints@.take(i as int)),
                l <= (i as int) * (u64::MAX as int),
                t == total_time(self.prints@.take(i as int)),
                t <= (i as int) * (u64::MAX as int),
            decreases n - i,
        {
            let p = self.prints[i];
            let w_add: u64 = match p.measure.weight {
                Some(v) => v,
                None => 0,
            };
            let l_add: u64 = match p.measure.length {
                Some(v) => v,
                None => 0,
            };
            proof {
                assert(self.prints@.take(i as int + 1).drop_last() =~= self.prints@.take(
                    i as int,
                ));
                assert(self.prints@.take(i as int + 1).last() == self.prints@[i as int]);
                assert((i as int) * (u64::MAX as int) + (u64::MAX as int) == (i as int + 1) * (
                u64::MAX as int) && (i as int + 1) * (u64::MAX as int) <= (u64::MAX as int) * (
                u64::MAX as int)) by (nonlinear_arith)
                    requires
                        0 <= i as int,
                        i as int + 1 <= u64::MAX as int,
                ;
            }
            w = w + w_add as u128;
            l = l + l_add as u128;
            t = t + p.print_time as u128;
            i = i + 1;
        }
        proof {
            assert(self.prints@.take(n as int) =~= self.prints@);
        }
        (w, l, t)
    }

    /// Whether every stored record is fully resolved and within bounds: what
    /// a log loaded back from storage must satisfy before the accounting
    /// queries run on it.
    #[verifier::loop_isolation(false)]
    pub fn is_well_formed(&self) -> (b: bool)
        ensures
            b == self.wf(),
    {
        let mut i: usize = 0;
        while i < self.spools.len()
            invariant
                i <= self.spools@.len(),
                forall|j: int| 0 <= j < i ==> (#[trigger] self.spools@[j]).wf(),
            decreases self.spools@.len() - i,
        {
            let ok = match (self.spools[i].measure.weight, self.spools[i].measure.length) {
                (Some(w), Some(l)) => w <= STORED_LIMIT && l <= STORED_LIMIT,
                _ => false,
            };
            if !ok {
                proof {
                    assert(!self.spools@[i as int].wf());
                }
                return false;
            }
            i = i + 1;
        }
        let mut k: usize = 0;
        while k < self.prints.len()
            invariant
                k <= self.prints@.len(),
                forall|j: int| 0 <= j < k ==> (#[trigger] self.prints@[j]).wf(),
            decreases self.prints@.len() - k,
        {
            let p = self.prints[k];
            let ok = match (p.measure.weight, p.measure.length) {
                (Some(w), Some(l)) => w <= STORED_LIMIT && l <= STORED_LIMIT && p.roll_id.is_some(),
                _ => false,
            };
            if !ok {
                proof {
                    assert(!self.prints@[k as int].wf());
                }
                return false;
            }
            k = k + 1;
        }
        true
    }
}

/// Appending a well-formed spool to a log of well-formed spools keeps every
/// record well-formed.
proof fn lemma_wf_after_push_spool(spools: Seq<Spool>, s: Spool)
    requires
        forall|i: int| 0 <= i < spools.len() ==> (#[trigger] spools[i]).wf(),
        s.wf(),
    ensures
        forall|i: int| 0 <= i < spools.push(s).len() ==> (#[trigger] spools.push(s)[i]).wf(),
{
    assert(forall|i: int| 0 <= i < spools.len() ==> spools.push(s)[i] == spools[i]);
}

/// Appending a well-formed print to a log of well-formed prints keeps every
/// record well-formed.
proof fn lemma_wf_after_push_print(prints: Seq<Filament>, p: Filament)
    requires
        forall|i: int| 0 <= i < prints.len() ==> (#[trigger] prints[i]).wf(),
        p.wf(),
    ensures
        forall|i: int| 0 <= i < prints.push(p).len() ==> (#[trigger] prints.push(p)[i]).wf(),
{
    assert(forall|i: int| 0 <= i < prints.len() ==> prints.push(p)[i] == prints[i]);
}

} // verus!
