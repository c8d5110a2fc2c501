use chrono::{Local, NaiveTime, Offset};
use vstd::prelude::*;

verus! {

/// An instant with the UTC offset it was observed in: whole seconds since the
/// Unix epoch, the nanoseconds within that second (a leap second runs past one
/// billion), and the offset east of UTC in seconds.
#[derive(Clone, Copy, Debug, PartialEq, Eq, Structural)]
pub struct Stamp {
    pub secs: i64,
    pub nanos: u32,
    pub offset: i32,
}

impl Stamp {
    pub open spec fn wf(self) -> bool {
        &&& self.nanos < 2_000_000_000
        &&& -86_400 < self.offset < 86_400
    }

    /// A local midnight: the wall-clock time in `offset` is 00:00:00 exactly.
    pub open spec fn is_local_midnight(self) -> bool {
        &&& self.nanos == 0
        &&& (self.secs + self.offset) % 86_400 == 0
    }

    /// `self` is strictly earlier than `other`.
    pub open spec fn before(self, other: Stamp) -> bool {
        self.secs < other.secs || (self.secs == other.secs && self.nanos < other.nanos)
    }

    /// Strictly earlier, as the instants go.
    pub fn is_before(&self, other: &Stamp) -> (r: bool)
        ensures
            r == self.before(*other),
    {
        self.secs < other.secs || (self.secs == other.secs && self.nanos < other.nanos)
    }
}

/// `t` lies strictly after the instant `secs` seconds and `nanos` nanoseconds
/// past the epoch.
pub open spec fn after_point(t: Stamp, secs: int, nanos: int) -> bool {
    t.secs > secs || (t.secs == secs && t.nanos > nanos)
}

/// Relies on chrono's `Local::now`, read back through `DateTime::timestamp`,
/// `timestamp_subsec_nanos` and `FixedOffset::local_minus_utc`, whose
/// documented ranges give `wf`.
#[verifier::external_body]
pub(crate) fn now_stamp() -> (r: Stamp)
    ensures
        r.wf(),
{
    let t = Local::now();
    Stamp {
        secs: t.timestamp(),
        nanos: t.timestamp_subsec_nanos(),
        offset: t.offset().fix().local_minus_utc(),
    }
}

/// Relies on chrono's `Date::and_time` on `Local::today()`: today's local
/// midnight, found through `from_local_datetime(..).single()`, so `None`
/// where the zone skips midnight or passes it twice. The result is a
/// midnight in its own offset: no fraction of a second, and the local
/// seconds since the epoch a whole number of days.
#[verifier::external_body]
#[allow(deprecated)]
pub(crate) fn local_midnight_today() -> (r: Option<Stamp>)
    ensures
        r matches Some(m) ==> m.wf() && m.is_local_midnight(),
{
    match Local::today().and_time(NaiveTime::MIN) {
        Some(t) => Some(Stamp {
            secs: t.timestamp(),
            nanos: t.timestamp_subsec_nanos(),
            offset: t.offset().fix().local_minus_utc(),
        }),
        None => None,
    }
}

} // verus!
