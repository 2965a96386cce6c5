//! Points in time.
use vstd::prelude::*;

verus! {

/// The first second that a [`Timestamp`] can name, counted from 1970-01-01T00:00:00Z.
pub const MIN_SECONDS: i64 = -8_334_601_228_800;

/// The last second that a [`Timestamp`] can name, counted from 1970-01-01T00:00:00Z.
pub const MAX_SECONDS: i64 = 8_210_266_876_799;

/// A second of the proleptic Gregorian calendar that `chrono` can name, and nanoseconds in it. A
/// leap second is named by the second before it and nanoseconds from one billion up.
pub open spec fn is_instant(seconds: i64, nanos: u32) -> bool {
    &&& MIN_SECONDS <= seconds <= MAX_SECONDS
    &&& nanos < 2_000_000_000
    &&& nanos >= 1_000_000_000 ==> seconds % 60 == 59
}

/// A point in time, in UTC.
#[derive(Clone, Copy, Debug, PartialEq, Eq, Structural)]
pub struct Timestamp {
    seconds: i64,
    nanos: u32,
}

/// The milliseconds from `earlier` to `later`, as `chrono` counts them.
pub uninterp spec fn chrono_millis_between(earlier: Timestamp, later: Timestamp) -> i64;

/// The point in time a number of milliseconds after another, as `chrono` counts them.
pub uninterp spec fn chrono_after_millis(at: Timestamp, millis: i64) -> Timestamp;

/// The point in time that `chrono` reads from an RFC 3339 text.
pub uninterp spec fn chrono_rfc3339_reading(text: Seq<char>) -> Option<Timestamp>;

/// The RFC 3339 text that `chrono` writes, with `Z` for the offset.
pub uninterp spec fn chrono_rfc3339_zulu(at: Timestamp) -> Seq<char>;

/// The RFC 3339 text that `chrono` writes, with `+00:00` for the offset.
pub uninterp spec fn chrono_rfc3339(at: Timestamp) -> Seq<char>;

/// The text that `chrono` displays.
pub uninterp spec fn chrono_display(at: Timestamp) -> Seq<char>;

/// Division that rounds toward zero.
pub open spec fn truncated_quotient(a: int, b: int) -> int
    recommends
        b > 0,
{
    if a >= 0 {
        a / b
    } else {
        -((-a) / b)
    }
}

impl Timestamp {
    /// Whole seconds since 1970-01-01T00:00:00Z.
    pub closed spec fn secs(self) -> i64 {
        self.seconds
    }

    /// Nanoseconds since the last whole second.
    pub closed spec fn subsec(self) -> u32 {
        self.nanos
    }

    #[verifier::type_invariant]
    spec fn valid(self) -> bool {
        is_instant(self.seconds, self.nanos)
    }

    /// The point in time is within a leap second.
    pub open spec fn is_leap(self) -> bool {
        self.subsec() >= 1_000_000_000
    }

    /// Nanoseconds since 1970-01-01T00:00:00Z.
    pub open spec fn total_nanos(self) -> int {
        self.secs() * 1_000_000_000 + self.subsec()
    }

    /// Milliseconds since 1970-01-01T00:00:00Z.
    pub open spec fn epoch_millis(self) -> int {
        self.secs() * 1000 + self.subsec() as int / 1_000_000
    }

    /// Adding the milliseconds stays within what a [`Timestamp`] can name. Leaving a leap second
    /// forward takes no time.
    pub open spec fn can_add_millis(self, millis: i64) -> bool {
        let sum = self.total_nanos() + millis * 1_000_000;
        let skipped: int = if self.is_leap() {
            1_000_000_000
        } else {
            0
        };
        &&& millis > i64::MIN
        &&& MIN_SECONDS * 1_000_000_000 <= sum
        &&& sum - skipped < (MAX_SECONDS + 1) * 1_000_000_000
    }

    /// A point in time, from seconds since 1970-01-01T00:00:00Z and nanoseconds in the second.
    pub fn new(seconds: i64, nanos: u32) -> (r: Option<Timestamp>)
        ensures
            match r {
                Some(at) => is_instant(seconds, nanos) && at.secs() == seconds && at.subsec()
                    == nanos,
                None => !is_instant(seconds, nanos),
            },
    {
        if seconds < MIN_SECONDS || seconds > MAX_SECONDS || nanos >= 2_000_000_000 {
            return None;
        }
        if nanos >= 1_000_000_000 {
            let shifted: i64 = seconds - MIN_SECONDS;
            assert(shifted % 60 == seconds % 60) by {
                assert(MIN_SECONDS == -138_910_020_480 * 60);
            }
            if shifted % 60 != 59 {
                return None;
            }
        }
        Some(Timestamp { seconds, nanos })
    }

    /// Whole seconds since 1970-01-01T00:00:00Z.
    pub fn timestamp(&self) -> (r: i64)
        ensures
            r == self.secs(),
    {
        self.seconds
    }

    /// Nanoseconds since the last whole second.
    pub fn timestamp_subsec_nanos(&self) -> (r: u32)
        ensures
            r == self.subsec(),
    {
        self.nanos
    }

    /// Milliseconds since 1970-01-01T00:00:00Z.
    pub fn timestamp_millis(&self) -> (r: i64)
        ensures
            r == self.epoch_millis(),
    {
        proof {
            use_type_invariant(self);
        }
        self.seconds * 1000 + (self.nanos / 1_000_000) as i64
    }

    /// Whether adding the milliseconds stays within what a [`Timestamp`] can name.
    pub fn has_room_for(&self, millis: i64) -> (r: bool)
        ensures
            r == self.can_add_millis(millis),
    {
        proof {
            use_type_invariant(self);
        }
        let sum: i128 = self.seconds as i128 * 1_000_000_000 + self.nanos as i128 + millis as i128
            * 1_000_000;
        let skipped: i128 = if self.nanos >= 1_000_000_000 {
            1_000_000_000
        } else {
            0
        };
        let first: i128 = MIN_SECONDS as i128 * 1_000_000_000;
        let bound: i128 = (MAX_SECONDS as i128 + 1) * 1_000_000_000;
        millis > i64::MIN && first <= sum && sum - skipped < bound
    }

    /// `DateTime::signed_duration_since` and `TimeDelta::num_milliseconds` give a function of the
    /// two points in time; where neither is in a leap second it is the time between them in
    /// milliseconds, rounded toward zero.
    #[verifier::external_body]
    fn outside_millis_since(self, earlier: Timestamp) -> (r: i64)
        requires
            is_instant(self.secs(), self.subsec()),
            is_instant(earlier.secs(), earlier.subsec()),
        ensures
            r == chrono_millis_between(earlier, self),
            !self.is_leap() && !earlier.is_leap() ==> r == truncated_quotient(
                self.total_nanos() - earlier.total_nanos(),
                1_000_000,
            ),
    {
        let later = chrono::DateTime::<chrono::Utc>::from_timestamp(self.seconds, self.nanos).unwrap();
        let since = chrono::DateTime::<chrono::Utc>::from_timestamp(earlier.seconds, earlier.nanos).unwrap();
        later.signed_duration_since(since).num_milliseconds()
    }

    /// The milliseconds that passed since an earlier point in time; negative where it is later.
    pub fn millis_since(self, earlier: Timestamp) -> (r: i64)
        ensures
            r == chrono_millis_between(earlier, self),
            !self.is_leap() && !earlier.is_leap() ==> r == truncated_quotient(
                self.total_nanos() - earlier.total_nanos(),
                1_000_000,
            ),
    {
        proof {
            use_type_invariant(&self);
            use_type_invariant(&earlier);
        }
        self.outside_millis_since(earlier)
    }

    /// Adding `TimeDelta::milliseconds` to a `DateTime` gives a function of the two; outside a leap
    /// second it is the point in time that many milliseconds later.
    #[verifier::external_body]
    fn outside_plus_millis(self, millis: i64) -> (r: Timestamp)
        requires
            is_instant(self.secs(), self.subsec()),
            self.can_add_millis(millis),
        ensures
            r == chrono_after_millis(self, millis),
            !self.is_leap() ==> !r.is_leap() && r.total_nanos() == self.total_nanos() + millis
                * 1_000_000,
    {
        let at = chrono::DateTime::<chrono::Utc>::from_timestamp(self.seconds, self.nanos).unwrap();
        let later = at + chrono::Duration::milliseconds(millis);
        Timestamp { seconds: later.timestamp(), nanos: later.timestamp_subsec_nanos() }
    }

    /// The point in time a number of milliseconds later.
    pub fn plus_millis(self, millis: i64) -> (r: Timestamp)
        requires
            self.can_add_millis(millis),
        ensures
            r == chrono_after_millis(self, millis),
            !self.is_leap() ==> !r.is_leap() && r.total_nanos() == self.total_nanos() + millis
                * 1_000_000,
    {
        proof {
            use_type_invariant(&self);
        }
        self.outside_plus_millis(millis)
    }

    /// `DateTime::parse_from_rfc3339`, taken to UTC, is a function of the text.
    #[verifier::external_body]
    fn outside_parse(text: &str) -> (r: Option<Timestamp>)
        ensures
            r == chrono_rfc3339_reading(text@),
    {
        chrono::DateTime::parse_from_rfc3339(text).ok().map(|at| at.with_timezone(&chrono::Utc)).map(
            |at| Timestamp { seconds: at.timestamp(), nanos: at.timestamp_subsec_nanos() },
        )
    }

    /// The point in time of an RFC 3339 text.
    pub fn parse_rfc3339(text: &str) -> (r: Option<Timestamp>)
        ensures
            r == chrono_rfc3339_reading(text@),
    {
        Timestamp::outside_parse(text)
    }

    /// `DateTime::to_rfc3339_opts`, with as many digits of the second as are needed and `Z`, is a
    /// function of the point in time.
    #[verifier::external_body]
    fn outside_rfc3339_zulu(self) -> (r: String)
        requires
            is_instant(self.secs(), self.subsec()),
        ensures
            r@ == chrono_rfc3339_zulu(self),
    {
        let at = chrono::DateTime::<chrono::Utc>::from_timestamp(self.seconds, self.nanos).unwrap();
        at.to_rfc3339_opts(chrono::SecondsFormat::AutoSi, true)
    }

    /// The RFC 3339 text, with `Z` for the offset.
    pub fn to_rfc3339_zulu(self) -> (r: String)
        ensures
            r@ == chrono_rfc3339_zulu(self),
    {
        proof {
            use_type_invariant(&self);
        }
        self.outside_rfc3339_zulu()
    }

    /// `DateTime::to_rfc3339` is a function of the point in time.
    #[verifier::external_body]
    fn outside_rfc3339(self) -> (r: String)
        requires
            is_instant(self.secs(), self.subsec()),
        ensures
            r@ == chrono_rfc3339(self),
    {
        chrono::DateTime::<chrono::Utc>::from_timestamp(self.seconds, self.nanos).unwrap().to_rfc3339()
    }

    /// The RFC 3339 text, with `+00:00` for the offset.
    pub fn to_rfc3339(self) -> (r: String)
        ensures
            r@ == chrono_rfc3339(self),
    {
        proof {
            use_type_invariant(&self);
        }
        self.outside_rfc3339()
    }

    /// The text that `DateTime` displays is a function of the point in time.
    #[verifier::external_body]
    fn outside_display(self) -> (r: String)
        requires
            is_instant(self.secs(), self.subsec()),
        ensures
            r@ == chrono_display(self),
    {
        chrono::DateTime::<chrono::Utc>::from_timestamp(self.seconds, self.nanos).unwrap().to_string()
    }

    /// The text for display.
    pub fn to_display(self) -> (r: String)
        ensures
            r@ == chrono_display(self),
    {
        proof {
            use_type_invariant(&self);
        }
        self.outside_display()
    }
}

} // verus!
