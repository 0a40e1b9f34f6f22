//! The process clock, read through std.

use vstd::prelude::*;

verus! {

/// Relies on `std::time::SystemTime::now`, measured against
/// `std::time::UNIX_EPOCH`: the clock reading depends on the machine, so
/// nothing is assumed of it beyond `Duration::as_secs` being non-negative.
#[verifier::external_body]
fn read_clock_seconds() -> (r: i64)
    ensures
        0 <= r,
{
    let secs = std::time::SystemTime::now().duration_since(std::time::UNIX_EPOCH).expect(
        "time went backwards",
    ).as_secs();
    i64::try_from(secs).expect("timestamp out of range")
}

/// The current time as whole seconds since the Unix epoch: the recency key
/// assigned to a spool at creation.
pub fn get_timestamp() -> (r: i64)
    ensures
        0 <= r,
{
    read_clock_seconds()
}

} // verus!
