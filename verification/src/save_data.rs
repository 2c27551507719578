//! The squawk schedule that survives restarts, and the instants it is made of.

use vstd::prelude::*;

verus! {

/// Nanoseconds in a second.
pub const NANOS_PER_SEC: u32 = 1_000_000_000;

/// The largest number of whole seconds a time span may hold (`i64::MAX`
/// milliseconds, as in `chrono::TimeDelta`).
pub const MAX_SPAN_SECS: i64 = 9_223_372_036_854_775;

/// An instant in UTC: seconds since the Unix epoch and nanoseconds into that second.
#[derive(Clone, Copy)]
pub struct Timestamp {
    pub secs: i64,
    pub nanos: u32,
}

/// A non-negative span of time.
#[derive(Clone, Copy)]
pub struct TimeSpan {
    pub secs: u64,
    pub nanos: u32,
}

impl Timestamp {
    pub open spec fn wf(self) -> bool {
        self.nanos < NANOS_PER_SEC
    }

    /// Nanoseconds since the epoch.
    pub open spec fn total_nanos(self) -> int {
        self.secs * NANOS_PER_SEC as int + self.nanos
    }

    /// The Unix epoch, where the bot starts when it has no saved schedule.
    pub fn epoch() -> (r: Self)
        ensures
            r.secs == 0,
            r.nanos == 0,
    {
        Timestamp { secs: 0, nanos: 0 }
    }

    /// An instant from its parts; `None` for a nanosecond count of a second or more.
    pub fn from_parts(secs: i64, nanos: u32) -> (r: Option<Self>)
        ensures
            r == (if nanos < NANOS_PER_SEC { Some(Timestamp { secs, nanos }) } else { None::<Timestamp> }),
    {
        if nanos < NANOS_PER_SEC {
            Some(Timestamp { secs, nanos })
        } else {
            None
        }
    }

    /// Whether `self` is strictly earlier than `other`.
    pub fn is_before(&self, other: &Timestamp) -> (r: bool)
        requires
            self.wf(),
            other.wf(),
        ensures
            r == (self.total_nanos() < other.total_nanos()),
    {
        self.secs < other.secs || (self.secs == other.secs && self.nanos < other.nanos)
    }

    /// Whether adding `secs` seconds to `self` stays within what can be represented.
    pub open spec fn can_add(self, secs: i64) -> bool {
        &&& -MAX_SPAN_SECS <= secs <= MAX_SPAN_SECS
        &&& i64::MIN <= self.secs + secs <= i64::MAX
    }

    /// `self` plus whole seconds.
    pub fn plus_seconds(&self, secs: i64) -> (r: Timestamp)
        requires
            self.wf(),
            self.can_add(secs),
        ensures
            r.wf(),
            r.total_nanos() == self.total_nanos() + secs * NANOS_PER_SEC as int,
    {
        Timestamp { secs: self.secs + secs, nanos: self.nanos }
    }

    /// The time from `self` until `later`, if `later` is strictly after `self`.
    pub fn until(&self, later: &Timestamp) -> (r: Option<TimeSpan>)
        requires
            self.wf(),
            later.wf(),
        ensures
            r is Some <==> self.total_nanos() < later.total_nanos(),
            r matches Some(d) ==> d.nanos < NANOS_PER_SEC && d.secs * NANOS_PER_SEC as int + d.nanos
                == later.total_nanos() - self.total_nanos(),
    {
        if !self.is_before(later) {
            return None;
        }
        let diff: i128 = (later.secs as i128 - self.secs as i128) * 1_000_000_000i128
            + later.nanos as i128 - self.nanos as i128;
        assert(diff == later.total_nanos() - self.total_nanos());
        assert(diff > 0);
        assert(diff < 0x1_0000_0000_0000_0000 * 1_000_000_000);
        let secs = diff / 1_000_000_000i128;
        let nanos = diff % 1_000_000_000i128;
        Some(TimeSpan { secs: secs as u64, nanos: nanos as u32 })
    }
}

/// When the bot may squawk next, kept between restarts.
pub struct SaveData {
    /// No squawk, random or scheduled, happens before this.
    pub squawk_cooldown: Timestamp,
    /// When the next scheduled squawk is due.
    pub next_random_squawk: Timestamp,
}

impl SaveData {
    pub open spec fn wf(self) -> bool {
        self.squawk_cooldown.wf() && self.next_random_squawk.wf()
    }

    /// The schedule of a bot that has never squawked: both instants at the epoch.
    pub fn default_data() -> (r: Self)
        ensures
            r.wf(),
            r.squawk_cooldown == Timestamp::epoch_value(),
            r.next_random_squawk == Timestamp::epoch_value(),
    {
        SaveData { squawk_cooldown: Timestamp::epoch(), next_random_squawk: Timestamp::epoch() }
    }
}

impl Timestamp {
    pub open spec fn epoch_value() -> Timestamp {
        Timestamp { secs: 0, nanos: 0 }
    }
}

} // verus!
