//! Points in time, as the snapshot chain orders them.

use vstd::prelude::*;

verus! {

/// Nanoseconds in a second.
pub const NANOS_PER_SECOND: u32 = 1_000_000_000;

/// Nanoseconds in a millisecond: the step by which a snapshot's timestamp is
/// pushed past its predecessor's.
pub const NANOS_PER_MILLI: u32 = 1_000_000;

/// Nanoseconds in a microsecond: the precision that a snapshot keeps.
pub const NANOS_PER_MICRO: u32 = 1_000;

/// A point in time: whole seconds since the Unix epoch and the nanoseconds
/// into that second.
#[derive(Clone, Copy, Debug, PartialEq, Eq, Structural)]
pub struct Timestamp {
    pub secs: i64,
    pub nanos: u32,
}

impl Timestamp {
    /// The nanoseconds are less than a second.
    pub open spec fn wf(self) -> bool {
        self.nanos < NANOS_PER_SECOND
    }

    /// The nanoseconds since the Unix epoch.
    pub open spec fn as_nanos(self) -> int {
        self.secs * 1_000_000_000 + self.nanos
    }

    /// A millisecond later is still a `Timestamp`.
    pub open spec fn can_advance(self) -> bool {
        self.nanos + NANOS_PER_MILLI >= NANOS_PER_SECOND ==> self.secs < i64::MAX
    }

    /// The point `secs` seconds and `nanos` nanoseconds after the epoch, or
    /// `None` when `nanos` is a second or more.
    pub fn new(secs: i64, nanos: u32) -> (r: Option<Timestamp>)
        ensures
            r == if nanos < NANOS_PER_SECOND {
                Some(Timestamp { secs, nanos })
            } else {
                None
            },
    {
        if nanos < NANOS_PER_SECOND {
            Some(Timestamp { secs, nanos })
        } else {
            None
        }
    }

    /// Whether the nanoseconds are less than a second.
    pub fn is_well_formed(&self) -> (r: bool)
        ensures
            r == self.wf(),
    {
        self.nanos < NANOS_PER_SECOND
    }

    /// Whether a millisecond later is still a `Timestamp`.
    pub fn has_later(&self) -> (r: bool)
        ensures
            r == self.can_advance(),
    {
        self.nanos < NANOS_PER_SECOND - NANOS_PER_MILLI || self.secs < i64::MAX
    }

    /// Whether `self` is no later than `other`.
    pub fn le(&self, other: &Timestamp) -> (r: bool)
        requires
            self.wf(),
            other.wf(),
        ensures
            r == (self.as_nanos() <= other.as_nanos()),
    {
        self.secs < other.secs || (self.secs == other.secs && self.nanos <= other.nanos)
    }

    /// Whether `self` is earlier than `other`.
    pub fn lt(&self, other: &Timestamp) -> (r: bool)
        requires
            self.wf(),
            other.wf(),
        ensures
            r == (self.as_nanos() < other.as_nanos()),
    {
        self.secs < other.secs || (self.secs == other.secs && self.nanos < other.nanos)
    }

    /// The point one millisecond after `self`.
    pub fn plus_one_milli(&self) -> (r: Timestamp)
        requires
            self.wf(),
            self.can_advance(),
        ensures
            r.wf(),
            r.as_nanos() == self.as_nanos() + NANOS_PER_MILLI,
    {
        let n: u32 = self.nanos + NANOS_PER_MILLI;
        if n >= NANOS_PER_SECOND {
            Timestamp { secs: self.secs + 1, nanos: n - NANOS_PER_SECOND }
        } else {
            Timestamp { secs: self.secs, nanos: n }
        }
    }
}

/// Two well-formed timestamps at the same nanosecond are the same timestamp.
pub proof fn lemma_as_nanos_injective(a: Timestamp, b: Timestamp)
    requires
        a.wf(),
        b.wf(),
        a.as_nanos() == b.as_nanos(),
    ensures
        a == b,
{
}

/// `ts` with what is finer than a microsecond cut off.
pub open spec fn trimmed(ts: Timestamp) -> Timestamp {
    Timestamp { secs: ts.secs, nanos: (ts.nanos - ts.nanos % 1000) as u32 }
}

/// Cuts a timestamp down to whole microseconds.
pub fn trim_timestamp_to_micro_second(ts: Timestamp) -> (r: Timestamp)
    ensures
        r == trimmed(ts),
        ts.wf() ==> r.wf(),
{
    Timestamp { secs: ts.secs, nanos: (ts.nanos / NANOS_PER_MICRO) * NANOS_PER_MICRO }
}

/// Trimming moves a timestamp back by less than a microsecond, onto a whole
/// microsecond, and leaves a trimmed timestamp alone.
pub proof fn lemma_trimmed(ts: Timestamp)
    requires
        ts.wf(),
    ensures
        trimmed(ts).wf(),
        trimmed(ts).as_nanos() % 1000 == 0,
        trimmed(ts).as_nanos() <= ts.as_nanos() < trimmed(ts).as_nanos() + 1000,
        trimmed(trimmed(ts)) == trimmed(ts),
{
    let t = trimmed(ts);
    assert((ts.secs * 1_000_000_000 + t.nanos) % 1000 == 0) by {
        vstd::arithmetic::div_mod::lemma_mod_multiples_vanish(
            ts.secs * 1_000_000,
            t.nanos as int,
            1000,
        );
    }
}

/// What `monotonically_increased_timestamp` returns: `timestamp` itself
/// when it is later than the previous one or when there is none, else the
/// previous one plus a millisecond.
pub open spec fn monotonic_after(timestamp: Timestamp, previous: Option<Timestamp>) -> Timestamp {
    match previous {
        Some(prev) => if timestamp.as_nanos() <= prev.as_nanos() {
            Timestamp {
                secs: if prev.nanos + NANOS_PER_MILLI >= NANOS_PER_SECOND {
                    (prev.secs + 1) as i64
                } else {
                    prev.secs
                },
                nanos: if prev.nanos + NANOS_PER_MILLI >= NANOS_PER_SECOND {
                    (prev.nanos + NANOS_PER_MILLI - NANOS_PER_SECOND) as u32
                } else {
                    (prev.nanos + NANOS_PER_MILLI) as u32
                },
            }
        } else {
            timestamp
        },
        None => timestamp,
    }
}

/// Makes a timestamp come after the previous one. A timestamp that is later
/// than the previous one, or that has none before it, is returned as it is;
/// one that is not later gives way to the previous one plus a millisecond.
pub fn monotonically_increased_timestamp(
    timestamp: Timestamp,
    previous_timestamp: &Option<Timestamp>,
) -> (r: Timestamp)
    requires
        timestamp.wf(),
        previous_timestamp matches Some(prev) ==> prev.wf() && prev.can_advance(),
    ensures
        r == monotonic_after(timestamp, *previous_timestamp),
        r.wf(),
        match *previous_timestamp {
            Some(prev) => if timestamp.as_nanos() <= prev.as_nanos() {
                r.as_nanos() == prev.as_nanos() + NANOS_PER_MILLI
            } else {
                r == timestamp
            },
            None => r == timestamp,
        },
{
    if let Some(prev_instant) = previous_timestamp {
        if timestamp.le(prev_instant) {
            return prev_instant.plus_one_milli();
        }
    }
    timestamp
}

/// The timestamp of a snapshot made at `now` after a snapshot made at
/// `previous`: whole microseconds, and later than the previous one.
pub open spec fn snapshot_time(now: Timestamp, previous: Option<Timestamp>) -> Timestamp {
    trimmed(monotonic_after(trimmed(now), previous))
}

/// Computes the timestamp of a new snapshot from the clock and from the
/// timestamp of the snapshot before it.
pub fn snapshot_timestamp(now: Timestamp, previous: &Option<Timestamp>) -> (r: Timestamp)
    requires
        now.wf(),
        previous matches Some(prev) ==> prev.wf() && prev.can_advance(),
    ensures
        r == snapshot_time(now, *previous),
        r.wf(),
        r.as_nanos() % 1000 == 0,
        previous matches Some(prev) ==> r.as_nanos() > prev.as_nanos(),
        previous is None ==> r == trimmed(now),
{
    let t1 = trim_timestamp_to_micro_second(now);
    let t2 = monotonically_increased_timestamp(t1, previous);
    let t3 = trim_timestamp_to_micro_second(t2);
    proof {
        lemma_trimmed(now);
        lemma_trimmed(t1);
        lemma_trimmed(t2);
    }
    t3
}

} // verus!
