//! Points in time and their text.
use crate::protocol::Timestamp;
use vstd::prelude::*;

verus! {

/// The first second that a calendar date can name.
pub const FIRST_SECOND: i64 = -8334601228800;

/// The last second that a calendar date can name.
pub const LAST_SECOND: i64 = 8210266876799;

/// The nanoseconds of a second.
pub const NANOS: u128 = 1000000000;

impl Timestamp {
    /// Whether a calendar date and time of day name this point. The last second of a minute may be
    /// a leap second, which lasts on.
    pub open spec fn valid(self) -> bool {
        &&& FIRST_SECOND <= self.seconds <= LAST_SECOND
        &&& self.nanos < 1_000_000_000 || (self.nanos < 2_000_000_000 && self.seconds as int % 60
            == 59)
    }

    /// Whether a calendar date and time of day name this point.
    pub fn is_valid(&self) -> (r: bool)
        ensures
            r == self.valid(),
    {
        FIRST_SECOND <= self.seconds && self.seconds <= LAST_SECOND && (self.nanos < 1_000_000_000
            || (self.nanos < 2_000_000_000 && (self.seconds - FIRST_SECOND) % 60 == 59))
    }

    /// Whether the point lies in the years 0 to 9999.
    pub open spec fn four_digit_year(self) -> bool {
        -62167219200 <= self.seconds <= 253402300799
    }

    /// Whether the point is `secs` seconds after another.
    pub open spec fn is_after(self, other: Timestamp, secs: int) -> bool {
        self.seconds == other.seconds + secs && self.nanos == other.nanos
    }
}

/// The text of a point in time.
pub uninterp spec fn time_text(t: Timestamp) -> Seq<char>;

/// The point in time that a text names, or what is wrong with the text.
pub uninterp spec fn time_reading(text: Seq<char>) -> Result<Timestamp, Seq<char>>;

/// The point in time that a text names.
pub open spec fn time_value(text: Seq<char>) -> Option<Timestamp> {
    match time_reading(text) {
        Ok(t) => Some(t),
        Err(_) => None,
    }
}

/// What is wrong with a text that names no point in time.
pub open spec fn time_error(text: Seq<char>) -> Seq<char> {
    time_reading(text)->Err_0
}

/// `chrono::DateTime::to_rfc3339`: the text of a point in time. In the years 0 to 9999 it names
/// that point when it is read.
#[verifier::external_body]
pub(crate) fn write_time(t: Timestamp) -> (r: String)
    requires
        t.valid(),
    ensures
        r@ == time_text(t),
        t.four_digit_year() ==> time_value(r@) == Some(t),
{
    chrono::DateTime::from_timestamp(t.seconds, t.nanos).unwrap_or_default().to_rfc3339()
}

/// `chrono::DateTime::parse_from_rfc3339`: the point in time that a text names, in universal time,
/// or the text of the error.
#[verifier::external_body]
pub(crate) fn read_time(text: &str) -> (r: Result<Timestamp, String>)
    ensures
        (match r {
            Ok(t) => Ok(t),
            Err(e) => Err(e@),
        }) == time_reading(text@),
        r matches Ok(t) ==> t.valid(),
{
    match chrono::DateTime::parse_from_rfc3339(text) {
        Ok(t) => Ok(Timestamp { seconds: t.timestamp(), nanos: t.timestamp_subsec_nanos() }),
        Err(error) => Err(error.to_string()),
    }
}

/// The text of a point in time.
pub fn time_string(t: Timestamp) -> (r: String)
    requires
        t.valid(),
    ensures
        r@ == time_text(t),
        t.four_digit_year() ==> time_value(r@) == Some(t),
{
    write_time(t)
}

/// The nanosecond at which a span of seconds that starts now is over.
pub open spec fn instant_after(now: u128, secs: u64) -> int {
    now + secs * 1_000_000_000
}

/// Adds seconds to an instant.
pub fn after(now: u128, secs: u64) -> (r: u128)
    requires
        instant_after(now, secs) <= u128::MAX,
    ensures
        r == instant_after(now, secs),
{
    now + secs as u128 * NANOS
}

/// Whether an instant has room for a span of seconds.
pub fn has_room(now: u128, secs: u64) -> (r: bool)
    ensures
        r == (instant_after(now, secs) <= u128::MAX),
{
    secs as u128 * NANOS <= u128::MAX - now
}

/// The seconds that a ticket is valid in universal time: the span itself where its milliseconds
/// fit 63 bits, else a quarter of a minute.
pub open spec fn ticket_seconds(secs: u64) -> int {
    if secs * 1000 <= i64::MAX {
        secs as int
    } else {
        15
    }
}

/// Whether a point in universal time has room for the span of a ticket.
pub open spec fn ticket_fits(wall: Timestamp, secs: u64) -> bool {
    wall.valid() && wall.nanos < 1_000_000_000 && wall.seconds + ticket_seconds(secs) <= LAST_SECOND
}

/// Whether a point in universal time has room for the span of a ticket.
pub fn ticket_has_room(wall: Timestamp, secs: u64) -> (r: bool)
    ensures
        r == ticket_fits(wall, secs),
{
    let span: i128 = if secs as i128 * 1000 <= i64::MAX as i128 {
        secs as i128
    } else {
        15
    };
    FIRST_SECOND <= wall.seconds && wall.seconds <= LAST_SECOND && wall.nanos < 1_000_000_000
        && wall.seconds as i128 + span <= LAST_SECOND as i128
}

/// The end of a ticket that is issued at `wall`.
pub fn ticket_deadline(wall: Timestamp, secs: u64) -> (r: Timestamp)
    requires
        ticket_fits(wall, secs),
    ensures
        r.is_after(wall, ticket_seconds(secs)),
        r.valid(),
{
    let span: i64 = if secs as u128 * 1000 <= i64::MAX as u128 {
        secs as i64
    } else {
        15
    };
    Timestamp { seconds: wall.seconds + span, nanos: wall.nanos }
}

/// Whether a whole number of days before a point in universal time can be named.
pub open spec fn days_fit(wall: Timestamp, days: i64) -> bool {
    &&& wall.valid()
    &&& wall.nanos < 1_000_000_000
    &&& FIRST_SECOND <= wall.seconds - days * 86_400 <= LAST_SECOND
}

/// Whether a whole number of days before a point in universal time can be named.
pub fn days_have_room(wall: Timestamp, days: i64) -> (r: bool)
    ensures
        r == days_fit(wall, days),
{
    let at: i128 = wall.seconds as i128 - days as i128 * 86_400;
    FIRST_SECOND <= wall.seconds && wall.seconds <= LAST_SECOND && wall.nanos < 1_000_000_000
        && FIRST_SECOND as i128 <= at && at <= LAST_SECOND as i128
}

/// The point a whole number of days before another.
pub fn days_before(wall: Timestamp, days: i64) -> (r: Timestamp)
    requires
        days_fit(wall, days),
    ensures
        r.is_after(wall, -(days * 86_400)),
        r.valid(),
{
    let at: i128 = wall.seconds as i128 - days as i128 * 86_400;
    Timestamp { seconds: at as i64, nanos: wall.nanos }
}

/// A span that starts now is over so many seconds later, in nanoseconds.
pub proof fn law_spans(now: u128, secs: u64)
    ensures
        instant_after(now, secs) - now == 1_000_000_000 * secs,
        instant_after(now, 0) == now,
{
}

/// A ticket is good for as many seconds as tickets live, unless that is longer than any clock can
/// tell.
pub proof fn law_tickets_live(secs: u64)
    ensures
        secs <= 9_000_000_000_000_000 ==> ticket_seconds(secs) == secs,
        secs > 9_223_372_036_854_775 ==> ticket_seconds(secs) == 15,
        0 <= ticket_seconds(secs) <= secs || ticket_seconds(secs) == 15,
{
}

/// A point in time has a calendar date, from the year -262143 to the year 262142, and less than two
/// seconds of nanoseconds: a second or more of them only in the last second of a minute. A point some
/// days before another is one that has a date where the days fit, and only there.
pub proof fn law_points_have_dates(t: Timestamp, wall: Timestamp, days: i64)
    requires
        t.is_after(wall, -(days * 86_400)),
    ensures
        wall.valid() ==> -8_334_601_228_800 <= wall.seconds <= 8_210_266_876_799,
        -8_334_601_228_800 <= wall.seconds <= 8_210_266_876_799 && wall.nanos < 1_000_000_000
            ==> wall.valid(),
        -8_334_601_228_800 <= wall.seconds <= 8_210_266_876_799 && wall.seconds % 60 == 59
            && wall.nanos < 2_000_000_000 ==> wall.valid(),
        wall.valid() && wall.nanos >= 1_000_000_000 ==> wall.seconds % 60 == 59 && wall.nanos
            < 2_000_000_000,
        wall.four_digit_year() <==> -62_167_219_200 <= wall.seconds < 253_402_300_800,
        wall.nanos < 1_000_000_000 ==> (days_fit(wall, days) <==> wall.valid() && t.valid()),
{
}

} // verus!
