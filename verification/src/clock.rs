//! Wall-clock instants as plain numbers, with the calendar left to `chrono`.

use vstd::prelude::*;

verus! {

/// The first second of the calendar that `chrono` covers: the start of the
/// year -262143, counted from the Unix epoch.
pub const MIN_TIMESTAMP_SECS: i64 = -8_334_601_228_800;

/// The last second of the calendar that `chrono` covers: the end of the
/// year 262142, counted from the Unix epoch.
pub const MAX_TIMESTAMP_SECS: i64 = 8_210_266_876_799;

/// Whether `chrono` can represent the instant `secs` seconds and `nanos`
/// nanoseconds after the Unix epoch. The second has to lie within the
/// calendar. The nanoseconds stay below one thousand million, but for a leap
/// second: in the last second of a minute they may go up to, not reaching,
/// two thousand million.
pub open spec fn timestamp_in_range(secs: i64, nanos: u32) -> bool {
    &&& MIN_TIMESTAMP_SECS <= secs <= MAX_TIMESTAMP_SECS
    &&& nanos < 2_000_000_000
    &&& nanos >= 1_000_000_000 ==> (secs as int) % 60 == 59
}

/// The RFC 3339 text that `chrono` renders for a representable UTC instant:
/// the value of `DateTime::<Utc>::to_rfc3339`.
pub uninterp spec fn rfc3339_of(secs: i64, nanos: u32) -> Seq<char>;

/// Trusted: `chrono::Utc::now`, read back through `DateTime::timestamp` and
/// `DateTime::timestamp_subsec_nanos`. Nothing is promised about which instant
/// comes back, only that it is one `chrono` can represent: the crate documents
/// that these two numbers round-trip through `DateTime::from_timestamp`.
/// `Utc::now` itself gives up on a host whose clock stands before 1970; no
/// precondition can rule that out.
#[verifier::external_body]
fn read_clock() -> (parts: (i64, u32))
    ensures
        timestamp_in_range(parts.0, parts.1),
{
    let now = chrono::Utc::now();
    (now.timestamp(), now.timestamp_subsec_nanos())
}

/// Trusted: `chrono::DateTime::from_timestamp`, asked only whether it accepts
/// the pair. Its source refuses a day outside the years -262143 to 262142
/// and nanoseconds that are too many for the second, which is what
/// `timestamp_in_range` states.
#[verifier::external_body]
fn representable(secs: i64, nanos: u32) -> (ok: bool)
    ensures
        ok == timestamp_in_range(secs, nanos),
{
    chrono::DateTime::from_timestamp(secs, nanos).is_some()
}

/// Trusted: `chrono::DateTime::<Utc>::to_rfc3339` on the instant rebuilt by
/// `DateTime::from_timestamp`. The precondition excludes the pairs on which
/// `from_timestamp` yields nothing.
#[verifier::external_body]
fn render_rfc3339(secs: i64, nanos: u32) -> (text: String)
    requires
        timestamp_in_range(secs, nanos),
    ensures
        text@ == rfc3339_of(secs, nanos),
{
    chrono::DateTime::from_timestamp(secs, nanos).unwrap().to_rfc3339()
}

/// A UTC instant: whole seconds since the Unix epoch plus nanoseconds.
/// Every value is one that `chrono` can represent.
#[derive(Clone, Copy, Debug)]
pub struct Timestamp {
    secs: i64,
    nanos: u32,
}

impl Timestamp {
    #[verifier::type_invariant]
    spec fn representable(self) -> bool {
        timestamp_in_range(self.secs, self.nanos)
    }

    /// Whole seconds since the Unix epoch.
    pub closed spec fn seconds(self) -> i64 {
        self.secs
    }

    /// Nanoseconds past the whole second.
    pub closed spec fn subsec_nanos(self) -> u32 {
        self.nanos
    }

    /// The instant counted in nanoseconds since the Unix epoch.
    pub open spec fn total_nanos(self) -> int {
        self.seconds() * 1_000_000_000 + self.subsec_nanos()
    }

    /// Whole milliseconds from `earlier` to `self`, zero when `self` is not
    /// later, capped at `u64::MAX`.
    pub open spec fn millis_since(self, earlier: Timestamp) -> int {
        let span = self.total_nanos() - earlier.total_nanos();
        if span <= 0 {
            0
        } else if span / 1_000_000 > u64::MAX {
            u64::MAX as int
        } else {
            span / 1_000_000
        }
    }

    /// The current time, as the host's clock has it. The clock must not
    /// stand before 1970.
    pub fn now() -> (t: Timestamp)
        ensures
            timestamp_in_range(t.seconds(), t.subsec_nanos()),
    {
        let (secs, nanos) = read_clock();
        Timestamp { secs, nanos }
    }

    /// The instant `secs` seconds and `nanos` nanoseconds after the epoch,
    /// if it is representable.
    pub fn from_parts(secs: i64, nanos: u32) -> (t: Option<Timestamp>)
        ensures
            t is Some == timestamp_in_range(secs, nanos),
            t matches Some(v) ==> v.seconds() == secs && v.subsec_nanos() == nanos,
    {
        if representable(secs, nanos) {
            Some(Timestamp { secs, nanos })
        } else {
            None
        }
    }

    /// Whole seconds since the Unix epoch.
    pub fn secs(&self) -> (s: i64)
        ensures
            s == self.seconds(),
    {
        self.secs
    }

    /// Nanoseconds past the whole second.
    pub fn nanos(&self) -> (n: u32)
        ensures
            n == self.subsec_nanos(),
    {
        self.nanos
    }

    /// The instant as RFC 3339 text.
    pub fn to_rfc3339(&self) -> (text: String)
        ensures
            text@ == rfc3339_of(self.seconds(), self.subsec_nanos()),
    {
        proof {
            use_type_invariant(self);
        }
        render_rfc3339(self.secs, self.nanos)
    }

    /// Milliseconds elapsed from `earlier` to `self`.
    pub fn elapsed_millis(&self, earlier: &Timestamp) -> (ms: u64)
        ensures
            ms == self.millis_since(*earlier),
    {
        let later: i128 = self.secs as i128 * 1_000_000_000 + self.nanos as i128;
        let start: i128 = earlier.secs as i128 * 1_000_000_000 + earlier.nanos as i128;
        let span: i128 = later - start;
        if span <= 0 {
            0
        } else {
            let whole: i128 = span / 1_000_000;
            if whole > u64::MAX as i128 {
                u64::MAX
            } else {
                whole as u64
            }
        }
    }
}

} // verus!
