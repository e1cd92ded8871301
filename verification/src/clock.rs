//! Points in time, and the calls into `chrono` that read the clock, measure
//! time and write it down.

use vstd::prelude::*;

verus! {

/// The earliest second that `chrono` can represent, counted from the Unix
/// epoch.
pub const MIN_UNIX_SECS: i64 = -8334601228800;

/// The latest second that `chrono` can represent, counted from the Unix epoch.
pub const MAX_UNIX_SECS: i64 = 8210266876799;

/// The number of nanoseconds in a second.
pub const NANOS_PER_SEC: u32 = 1_000_000_000;

/// A point in time in UTC, to the nanosecond, in the range of `chrono`.
///
/// Its view is the number of nanoseconds since the Unix epoch.
#[derive(Debug, Clone, Copy, PartialEq, Eq, Structural)]
pub struct Timestamp {
    secs: i64,
    nanos: u32,
}

impl View for Timestamp {
    type V = int;

    closed spec fn view(&self) -> int {
        self.secs * NANOS_PER_SEC + self.nanos
    }
}

/// `nanos` nanoseconds in whole seconds, rounded toward zero.
pub open spec fn whole_seconds(nanos: int) -> int {
    if nanos >= 0 {
        nanos / 1_000_000_000
    } else {
        -((-nanos) / 1_000_000_000)
    }
}

/// The whole seconds from `earlier` to `later` as an unsigned 64-bit number: a
/// negative count wraps around, so that a clock that went back looks like a
/// very long wait.
pub open spec fn elapsed(earlier: Timestamp, later: Timestamp) -> int {
    let secs = whole_seconds(later@ - earlier@);
    if secs >= 0 {
        secs
    } else {
        secs + 0x1_0000_0000_0000_0000
    }
}

/// What `DateTime::<Utc>::to_rfc3339` returns for the point in time `nanos`
/// nanoseconds after the Unix epoch.
pub uninterp spec fn rfc3339(nanos: int) -> Seq<char>;

impl Timestamp {
    #[verifier::type_invariant]
    spec fn valid(self) -> bool {
        MIN_UNIX_SECS <= self.secs <= MAX_UNIX_SECS && self.nanos < NANOS_PER_SEC
    }

    /// The point in time `secs` seconds and `nanos` nanoseconds after the Unix
    /// epoch, where it is in range and `nanos` is less than a second.
    pub fn new(secs: i64, nanos: u32) -> (result: Option<Timestamp>)
        ensures
            result is Some == (MIN_UNIX_SECS <= secs <= MAX_UNIX_SECS && nanos < NANOS_PER_SEC),
            result is Some ==> result->0@ == secs * NANOS_PER_SEC + nanos,
    {
        if MIN_UNIX_SECS <= secs && secs <= MAX_UNIX_SECS && nanos < NANOS_PER_SEC {
            Some(Timestamp { secs, nanos })
        } else {
            None
        }
    }

    /// The current time.
    pub fn now() -> (result: Timestamp)
        ensures
            result@ >= 0,
    {
        utc_now()
    }

    /// Seconds and nanoseconds since the Unix epoch.
    pub fn parts(self) -> (result: (i64, u32))
        ensures
            MIN_UNIX_SECS <= result.0 <= MAX_UNIX_SECS,
            result.1 < NANOS_PER_SEC,
            self@ == result.0 * NANOS_PER_SEC + result.1,
    {
        proof {
            use_type_invariant(&self);
        }
        (self.secs, self.nanos)
    }

    /// Whether this point in time is no later than another.
    pub fn is_no_later(self, other: Timestamp) -> (result: bool)
        ensures
            result == (self@ <= other@),
    {
        proof {
            use_type_invariant(&self);
            use_type_invariant(&other);
        }
        self.secs < other.secs || (self.secs == other.secs && self.nanos <= other.nanos)
    }

    /// Whole seconds since an earlier point in time; a negative count wraps.
    pub fn seconds_since(self, earlier: Timestamp) -> (secs: u64)
        ensures
            secs == elapsed(earlier, self),
    {
        proof {
            use_type_invariant(&self);
            use_type_invariant(&earlier);
        }
        let secs: i64 = utc_seconds_between(earlier, self);
        if secs >= 0 {
            secs as u64
        } else {
            u64::MAX - ((-(secs + 1)) as u64)
        }
    }

    /// This point in time in the format of RFC 3339.
    pub fn to_rfc3339(self) -> (result: String)
        ensures
            result@ == rfc3339(self@),
    {
        utc_to_rfc3339(self)
    }
}

/// Calls `chrono::Utc::now`. The clock may say anything from the Unix epoch to
/// the end of the range of `chrono`; outside it `chrono` panics.
#[verifier::external_body]
fn utc_now() -> (result: Timestamp)
    ensures
        result@ >= 0,
{
    let now = chrono::Utc::now();
    Timestamp { secs: now.timestamp(), nanos: now.timestamp_subsec_nanos() }
}

/// Subtracts two `chrono::DateTime<Utc>` values and calls
/// `TimeDelta::num_seconds`: the difference in whole seconds, rounded toward
/// zero.
#[verifier::external_body]
fn utc_seconds_between(earlier: Timestamp, later: Timestamp) -> (secs: i64)
    ensures
        secs == whole_seconds(later@ - earlier@),
{
    let from = chrono::DateTime::<chrono::Utc>::from_timestamp(earlier.secs, earlier.nanos).unwrap();
    let to = chrono::DateTime::<chrono::Utc>::from_timestamp(later.secs, later.nanos).unwrap();
    (to - from).num_seconds()
}

/// Calls `chrono::DateTime::<Utc>::to_rfc3339`, whose result depends on the
/// point in time alone.
#[verifier::external_body]
fn utc_to_rfc3339(time: Timestamp) -> (result: String)
    ensures
        result@ == rfc3339(time@),
{
    chrono::DateTime::<chrono::Utc>::from_timestamp(time.secs, time.nanos).unwrap().to_rfc3339()
}

/// What `chrono` writes by the format `%Y-%m-%d %H:%M:%S` for the second
/// `secs` after the Unix epoch, as if it were a time of day in UTC.
pub uninterp spec fn date_text(secs: int) -> Seq<char>;

/// Whether a text ends like a date and a time of day: two digits each for the
/// month, the day, the hour, the minute and the second, after a year of at
/// least four characters.
pub open spec fn looks_like_time(text: Seq<char>) -> bool {
    &&& text.len() >= 19
    &&& text[text.len() - 15] == '-'
    &&& text[text.len() - 12] == '-'
    &&& text[text.len() - 9] == ' '
    &&& text[text.len() - 6] == ':'
    &&& text[text.len() - 3] == ':'
}

/// Whether `text` is `date`, and `date` that of a second less than a day away
/// from a point in time: the second `local` after the Unix epoch.
pub open spec fn is_date_near(
    text: Seq<char>,
    date: Seq<char>,
    local: int,
    time: Timestamp,
) -> bool {
    text == date && -86400 < local - time@ / 1_000_000_000 < 86400
}

/// Whether a text shows a point in time in some time zone: the date and the
/// time of day of a second that is less than a day away.
pub open spec fn is_local_time(time: Timestamp, text: Seq<char>) -> bool {
    &&& looks_like_time(text)
    &&& exists|local: int| is_date_near(text, #[trigger] date_text(local), local, time)
}

/// Calls `chrono::DateTime::with_timezone` with `chrono::Local`, and `format`
/// with `%Y-%m-%d %H:%M:%S`. By how many seconds the time of day differs from
/// UTC depends on the time zone of the machine and is not stated, only that
/// they are less than a day.
#[verifier::external_body]
pub(crate) fn local_time(time: Timestamp) -> (result: String)
    ensures
        looks_like_time(result@),
        exists|local: int| is_date_near(result@, #[trigger] date_text(local), local, time),
{
    let utc = chrono::DateTime::<chrono::Utc>::from_timestamp(time.secs, time.nanos).unwrap();
    utc.with_timezone(&chrono::Local).format("%Y-%m-%d %H:%M:%S").to_string()
}

/// A count of elapsed seconds is the time between two points in whole seconds:
/// as many as fit in it. A clock that went back by a second or more looks like
/// a wait of more than two hundred billion years.
pub proof fn lemma_elapsed_counts_whole_seconds(earlier: Timestamp, later: Timestamp)
    ensures
        later@ >= earlier@ ==> elapsed(earlier, later) * 1_000_000_000 <= later@ - earlier@ < (
        elapsed(earlier, later) + 1) * 1_000_000_000,
        later@ >= earlier@ ==> elapsed(earlier, later) >= 0,
        0x1_0000_0000_0000_0000 * 1_000_000_000 > earlier@ - later@ >= 1_000_000_000 ==> elapsed(
            earlier,
            later,
        ) * 1_000_000_000 >= 0x1_0000_0000_0000_0000 * 1_000_000_000 - (earlier@ - later@),
{
}

} // verus!
