//! The data types of the idle-progression system, and the clock reading it
//! (and the random generator) seed themselves from.

use vstd::prelude::*;

verus! {

/// The currencies an idle generator can produce.
#[derive(Debug, Clone, Copy, PartialEq, Eq, Structural, Hash)]
pub enum ResourceType {
    Gold,
    ElrianDust,
    ResearchPoints,
    ElrianShards,
}

/// The persistent state of one idle generator.
#[derive(Debug, Clone)]
pub struct GeneratorState {
    pub id: String,
    pub level: u32,
    pub resource_type: ResourceType,
}

impl GeneratorState {
    /// A fresh generator starts at level one.
    pub fn new(id: String, resource_type: ResourceType) -> (r: Self)
        ensures
            r.id == id,
            r.level == 1,
            r.resource_type == resource_type,
    {
        GeneratorState { id, level: 1, resource_type }
    }
}

/// Relies on `std::time::SystemTime::now`: reads the wall clock as
/// nanoseconds since the Unix epoch (zero if the clock reads earlier than
/// the epoch).  The result depends on the clock, so nothing is promised
/// of it.
#[verifier::external_body]
pub fn unix_time_nanos() -> u64 {
    std::time::SystemTime::now()
        .duration_since(std::time::UNIX_EPOCH)
        .map(|d| d.as_nanos() as u64)
        .unwrap_or(0)
}

/// Seconds since the Unix epoch, from the same clock reading.
pub fn current_timestamp_secs() -> (r: i64)
    ensures
        r >= 0,
{
    let nanos: u64 = unix_time_nanos();
    let secs: u64 = nanos / 1_000_000_000;
    if secs > i64::MAX as u64 {
        i64::MAX
    } else {
        secs as i64
    }
}

} // verus!
