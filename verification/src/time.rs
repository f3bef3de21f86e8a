//! Instants as chrono keeps them: whole seconds since the Unix epoch (UTC) and the
//! nanoseconds past that second, which go past a second's worth only within a leap
//! second.
use vstd::prelude::*;

verus! {

/// Seconds in one day.
pub const SECS_PER_DAY: i64 = 86_400;

/// An instant: whole seconds since the Unix epoch (UTC) and the nanoseconds past them.
#[derive(Debug, Clone, Copy, PartialEq, Eq, Structural)]
pub struct Timestamp {
    pub secs: i64,
    pub nanos: u32,
}

/// Whether `a` comes before `b`: seconds first, then nanoseconds, the order chrono gives
/// its instants.
pub open spec fn earlier(a: Timestamp, b: Timestamp) -> bool {
    a.secs < b.secs || (a.secs == b.secs && a.nanos < b.nanos)
}

impl Timestamp {
    /// Whether this instant comes before `other`.
    pub fn is_before(&self, other: &Timestamp) -> (r: bool)
        ensures
            r == earlier(*self, *other),
    {
        self.secs < other.secs || (self.secs == other.secs && self.nanos < other.nanos)
    }
}

/// No instant comes before itself, and of two different instants exactly one comes first.
pub proof fn lemma_earlier_is_total(a: Timestamp, b: Timestamp)
    ensures
        !earlier(a, a),
        a != b ==> (earlier(a, b) != earlier(b, a)),
{
}

} // verus!
