//! Instants, to the nanosecond, and the whole seconds and milliseconds between them.
use vstd::prelude::*;

verus! {

/// First representable second, counted from 1970-01-01 00:00:00 UTC.
pub const MIN_SECS: i128 = -8_334_601_228_800;

/// Last representable second.
pub const MAX_SECS: i128 = 8_210_266_876_799;

/// Nanoseconds in a second.
pub const NANOS_PER_SEC: i128 = 1_000_000_000;

/// Nanoseconds in a millisecond.
pub const NANOS_PER_MILLI: i128 = 1_000_000;

/// An instant: nanoseconds since 1970-01-01 00:00:00 UTC.
#[derive(Clone, Copy, Debug, PartialEq, Eq, PartialOrd, Ord, Structural)]
pub struct DateTime {
    nanos: i128,
}

/// Whether a count of nanoseconds is an instant.
pub open spec fn in_calendar(nanos: int) -> bool {
    MIN_SECS * NANOS_PER_SEC <= nanos < (MAX_SECS + 1) * NANOS_PER_SEC
}

/// The instant of a count of nanoseconds.
pub closed spec fn instant(nanos: int) -> DateTime {
    DateTime { nanos: nanos as i128 }
}

/// `n / unit`, the fraction dropped.
pub open spec fn whole_units(n: int, unit: int) -> int {
    if n >= 0 {
        n / unit
    } else {
        -((-n) / unit)
    }
}

/// Whole seconds from `b` to `a`, negative when `a` comes first.
pub open spec fn secs_between(a: DateTime, b: DateTime) -> int {
    whole_units(a.nanos_of() - b.nanos_of(), NANOS_PER_SEC as int)
}

/// Whole milliseconds from `b` to `a`, negative when `a` comes first.
pub open spec fn millis_between(a: DateTime, b: DateTime) -> int {
    whole_units(a.nanos_of() - b.nanos_of(), NANOS_PER_MILLI as int)
}

/// `t` moved by `secs` seconds; none outside the calendar.
pub open spec fn shifted(t: DateTime, secs: int) -> Option<DateTime> {
    let n = t.nanos_of() + secs * NANOS_PER_SEC;
    if in_calendar(n) {
        Some(instant(n))
    } else {
        None
    }
}

impl DateTime {
    /// Nanoseconds since 1970-01-01 00:00:00 UTC.
    pub closed spec fn nanos_of(self) -> int {
        self.nanos as int
    }

    /// Whole seconds since 1970-01-01 00:00:00 UTC, rounded down.
    pub open spec fn secs_of(self) -> int {
        self.nanos_of() / NANOS_PER_SEC as int
    }

    #[verifier::type_invariant]
    spec fn in_range(self) -> bool {
        in_calendar(self.nanos as int)
    }

    /// The instant of a count of nanoseconds, when the calendar has it.
    pub fn from_nanos(nanos: i128) -> (r: Option<DateTime>)
        ensures
            r is Some <==> in_calendar(nanos as int),
            r is Some ==> r->0.nanos_of() == nanos && r->0 == instant(nanos as int),
    {
        if MIN_SECS * NANOS_PER_SEC <= nanos && nanos < (MAX_SECS + 1) * NANOS_PER_SEC {
            Some(DateTime { nanos })
        } else {
            None
        }
    }

    /// The instant of a count of whole seconds, when the calendar has it.
    pub fn from_timestamp(secs: i64) -> (r: Option<DateTime>)
        ensures
            r is Some <==> MIN_SECS <= secs <= MAX_SECS,
            r is Some ==> r->0.nanos_of() == secs * NANOS_PER_SEC && r->0 == instant(
                secs * NANOS_PER_SEC,
            ),
    {
        if MIN_SECS <= secs as i128 && secs as i128 <= MAX_SECS {
            Some(DateTime { nanos: secs as i128 * NANOS_PER_SEC })
        } else {
            None
        }
    }

    /// Nanoseconds since 1970-01-01 00:00:00 UTC.
    pub fn nanos(&self) -> (r: i128)
        ensures
            r == self.nanos_of(),
    {
        self.nanos
    }

    /// Whole seconds since 1970-01-01 00:00:00 UTC, rounded down.
    pub fn timestamp(&self) -> (r: i64)
        ensures
            r == self.secs_of(),
            MIN_SECS <= r <= MAX_SECS,
    {
        proof {
            use_type_invariant(self);
        }
        let shift: i128 = MIN_SECS * NANOS_PER_SEC;
        let up: u128 = (self.nanos - shift) as u128;
        let q: u128 = up / 1_000_000_000u128;
        (q as i128 + MIN_SECS) as i64
    }

    /// Whole milliseconds since 1970-01-01 00:00:00 UTC, rounded down.
    pub open spec fn millis_of(self) -> int {
        self.nanos_of() / NANOS_PER_MILLI as int
    }

    /// Whole milliseconds since 1970-01-01 00:00:00 UTC, rounded down.
    pub fn timestamp_millis(&self) -> (r: i64)
        ensures
            r == self.millis_of(),
    {
        proof {
            use_type_invariant(self);
        }
        let shift: i128 = MIN_SECS * NANOS_PER_SEC;
        let up: u128 = (self.nanos - shift) as u128;
        let q: u128 = up / 1_000_000u128;
        (q as i128 + MIN_SECS * 1000) as i64
    }

    /// Whole seconds from `earlier` to `self`.
    pub fn secs_since(&self, earlier: DateTime) -> (r: i64)
        ensures
            r == secs_between(*self, earlier),
            -20_000_000_000_000 <= r <= 20_000_000_000_000,
    {
        proof {
            use_type_invariant(self);
            use_type_invariant(&earlier);
        }
        let d: i128 = self.nanos - earlier.nanos;
        if d >= 0 {
            (d as u128 / 1_000_000_000u128) as i64
        } else {
            -(((-d) as u128 / 1_000_000_000u128) as i64)
        }
    }

    /// Whole milliseconds from `earlier` to `self`.
    pub fn millis_since(&self, earlier: DateTime) -> (r: i64)
        ensures
            r == millis_between(*self, earlier),
            -20_000_000_000_000_000 <= r <= 20_000_000_000_000_000,
    {
        proof {
            use_type_invariant(self);
            use_type_invariant(&earlier);
        }
        let d: i128 = self.nanos - earlier.nanos;
        if d >= 0 {
            (d as u128 / 1_000_000u128) as i64
        } else {
            -(((-d) as u128 / 1_000_000u128) as i64)
        }
    }

    /// `self` moved by `secs` seconds; none outside the calendar.
    pub fn plus_secs(&self, secs: i64) -> (r: Option<DateTime>)
        ensures
            r == shifted(*self, secs as int),
    {
        proof {
            use_type_invariant(self);
        }
        DateTime::from_nanos(self.nanos + secs as i128 * NANOS_PER_SEC)
    }

    /// `self` moved back by `secs` seconds; none outside the calendar.
    pub fn minus_secs(&self, secs: i64) -> (r: Option<DateTime>)
        ensures
            r == shifted(*self, -secs as int),
    {
        proof {
            use_type_invariant(self);
        }
        DateTime::from_nanos(self.nanos - secs as i128 * NANOS_PER_SEC)
    }

    /// Whether `self` comes before `other`.
    pub fn before(&self, other: DateTime) -> (r: bool)
        ensures
            r == (self.nanos_of() < other.nanos_of()),
    {
        self.nanos < other.nanos
    }
}

impl View for DateTime {
    type V = DateTime;

    open spec fn view(&self) -> DateTime {
        *self
    }
}

/// Whole seconds between two instants are the seconds that have passed in full: counted forward
/// where the first instant is the later one, else the same number backward.
pub proof fn whole_seconds_have_passed(a: DateTime, b: DateTime)
    ensures
        ({
            let apart = a.nanos_of() - b.nanos_of();
            let n = secs_between(a, b);
            &&& apart >= 0 ==> n * 1_000_000_000 <= apart < (n + 1) * 1_000_000_000
            &&& secs_between(b, a) == -n
        }),
{
}

/// Whole milliseconds between two instants are the milliseconds that have passed in full.
pub proof fn whole_millis_have_passed(a: DateTime, b: DateTime)
    ensures
        ({
            let apart = a.nanos_of() - b.nanos_of();
            let n = millis_between(a, b);
            &&& apart >= 0 ==> n * 1_000_000 <= apart < (n + 1) * 1_000_000
            &&& millis_between(b, a) == -n
        }),
{
}

/// Moving an instant by seconds moves it by that many thousand million nanoseconds.
pub proof fn shifting_moves_by_seconds(t: DateTime, secs: int)
    requires
        shifted(t, secs) is Some,
    ensures
        (shifted(t, secs)->0).nanos_of() == t.nanos_of() + secs * 1_000_000_000,
{
}

} // verus!
