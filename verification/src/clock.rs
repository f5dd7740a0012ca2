//! Points in time and their RFC 3339 texts.
use vstd::prelude::*;

verus! {

/// The first second of the calendar, 1 January of the year -262143.
pub const EARLIEST: i64 = -8334601228800;

/// The last second of the calendar, on 31 December of the year 262142.
pub const LATEST: i64 = 8210266876799;

/// The first second of the year 0.
pub const YEAR_ZERO: i64 = -62167219200;

/// The last second of the year 9999.
pub const YEAR_9999_END: i64 = 253402300799;

/// Seconds since 1970 and nanoseconds that lie within the calendar. Nanoseconds beyond a full
/// second stand for a leap second, which only the last second of a minute can carry.
pub open spec fn in_calendar(secs: i64, nanos: u32) -> bool {
    &&& EARLIEST <= secs <= LATEST
    &&& nanos < 2_000_000_000
    &&& nanos >= 1_000_000_000 ==> secs as int % 60 == 59
}

/// The years that RFC 3339 can write, 0 to 9999.
pub open spec fn writable_year(secs: i64) -> bool {
    YEAR_ZERO <= secs <= YEAR_9999_END
}

/// What `chrono` writes for a point in time in RFC 3339 form, in UTC.
pub uninterp spec fn rfc3339_text(secs: i64, nanos: u32) -> Seq<char>;

/// What `chrono` reads from an RFC 3339 text: seconds since 1970 and nanoseconds, or nothing
/// for a text in any other form.
pub uninterp spec fn rfc3339_instant(text: Seq<char>) -> Option<(i64, u32)>;

/// Calls `chrono::DateTime::to_rfc3339` on a UTC point in time.
///
/// Claims that the text depends on the point in time alone and, for the years that RFC 3339
/// can write, that reading the text gives the point in time back.
#[verifier::external_body]
fn chrono_to_rfc3339(secs: i64, nanos: u32) -> (text: String)
    requires
        in_calendar(secs, nanos),
    ensures
        text@ == rfc3339_text(secs, nanos),
        writable_year(secs) ==> rfc3339_instant(text@) == Some((secs, nanos)),
{
    chrono::DateTime::from_timestamp(secs, nanos).unwrap().to_rfc3339()
}

/// Calls `chrono::DateTime::parse_from_rfc3339` and moves the result to UTC.
///
/// Claims that the result depends on the text alone.
#[verifier::external_body]
fn chrono_parse_from_rfc3339(text: &str) -> (res: Option<(i64, u32)>)
    ensures
        res == rfc3339_instant(text@),
{
    match chrono::DateTime::parse_from_rfc3339(text) {
        Ok(t) => {
            let utc = t.with_timezone(&chrono::Utc);
            Some((utc.timestamp(), utc.timestamp_subsec_nanos()))
        },
        Err(_) => None,
    }
}

/// The point in time a number of minutes earlier; nothing when that lies before the calendar.
/// Going back from within a leap second counts from the second that follows it.
pub open spec fn minutes_earlier(secs: i64, nanos: u32, minutes: i64) -> Option<(i64, u32)> {
    let leap = nanos >= 1_000_000_000;
    let from = if leap { secs + 1 } else { secs as int };
    let to = from - 60 * minutes;
    if to >= EARLIEST {
        Some((to as i64, if leap { (nanos - 1_000_000_000) as u32 } else { nanos }))
    } else {
        None
    }
}

/// Calls `chrono::TimeDelta::try_minutes` and `chrono::DateTime::checked_sub_signed`.
///
/// Claims that minutes are taken off the seconds with nothing else changed, and that the only
/// failure is to leave the calendar.
#[verifier::external_body]
fn chrono_minutes_earlier(secs: i64, nanos: u32, minutes: i64) -> (res: Option<(i64, u32)>)
    requires
        in_calendar(secs, nanos),
        minutes > 0,
    ensures
        res == minutes_earlier(secs, nanos, minutes),
{
    let now = chrono::DateTime::from_timestamp(secs, nanos).unwrap();
    let then = now.checked_sub_signed(chrono::TimeDelta::try_minutes(minutes)?)?;
    Some((then.timestamp(), then.timestamp_subsec_nanos()))
}

/// A point in time within the calendar.
#[derive(Clone, Copy, Debug)]
pub struct Moment {
    secs: i64,
    nanos: u32,
}

impl Moment {
    #[verifier::type_invariant]
    spec fn well_formed(self) -> bool {
        in_calendar(self.secs, self.nanos)
    }

    /// Seconds since 1970, UTC.
    pub closed spec fn spec_secs(self) -> i64 {
        self.secs
    }

    /// Nanoseconds within the second.
    pub closed spec fn spec_nanos(self) -> u32 {
        self.nanos
    }

    /// The RFC 3339 text of this point in time.
    pub open spec fn text(self) -> Seq<char> {
        rfc3339_text(self.spec_secs(), self.spec_nanos())
    }

    /// The point in time at the given seconds and nanoseconds, if it lies within the calendar.
    pub fn new(secs: i64, nanos: u32) -> (res: Option<Moment>)
        ensures
            res is Some <==> in_calendar(secs, nanos),
            res matches Some(m) ==> m.spec_secs() == secs && m.spec_nanos() == nanos,
    {
        if secs < EARLIEST || secs > LATEST || nanos >= 2_000_000_000 {
            return None;
        }
        if nanos >= 1_000_000_000 && (secs - EARLIEST) % 60 != 59 {
            return None;
        }
        Some(Moment { secs, nanos })
    }

    /// Seconds since 1970, UTC.
    #[verifier::when_used_as_spec(spec_secs)]
    pub fn secs(self) -> (res: i64)
        ensures
            res == self.spec_secs(),
            EARLIEST <= res <= LATEST,
    {
        proof {
            use_type_invariant(&self);
        }
        self.secs
    }

    /// Nanoseconds within the second; beyond a full second within a leap second.
    #[verifier::when_used_as_spec(spec_nanos)]
    pub fn nanos(self) -> (res: u32)
        ensures
            res == self.spec_nanos(),
            in_calendar(self.spec_secs(), res),
    {
        proof {
            use_type_invariant(&self);
        }
        self.nanos
    }

    /// Writes the point in time in RFC 3339 form. Reading the text gives the point in time
    /// back for the years that the form can write.
    pub fn to_rfc3339(self) -> (res: String)
        ensures
            res@ == self.text(),
            res@ == rfc3339_text(self.spec_secs(), self.spec_nanos()),
            writable_year(self.spec_secs()) ==> rfc3339_instant(res@) == Some(
                (self.spec_secs(), self.spec_nanos()),
            ),
    {
        proof {
            use_type_invariant(&self);
        }
        chrono_to_rfc3339(self.secs, self.nanos)
    }

    /// The point in time a positive number of minutes earlier, if it lies within the calendar.
    pub fn minus_minutes(self, minutes: i64) -> (res: Option<(i64, u32)>)
        requires
            minutes > 0,
        ensures
            res == minutes_earlier(self.spec_secs(), self.spec_nanos(), minutes),
            res is Some ==> 60 * minutes <= LATEST + 1 - EARLIEST,
    {
        proof {
            use_type_invariant(&self);
        }
        chrono_minutes_earlier(self.secs, self.nanos, minutes)
    }
}

/// Reads an RFC 3339 text as seconds since 1970 and nanoseconds.
pub fn parse_rfc3339(text: &str) -> (res: Option<(i64, u32)>)
    ensures
        res == rfc3339_instant(text@),
{
    chrono_parse_from_rfc3339(text)
}

/// One point in time lies before another.
pub open spec fn earlier(a: (i64, u32), b: (i64, u32)) -> bool {
    a.0 < b.0 || (a.0 == b.0 && a.1 < b.1)
}

/// Tells whether one point in time lies before another.
pub fn is_earlier(a: (i64, u32), b: (i64, u32)) -> (res: bool)
    ensures
        res == earlier(a, b),
{
    a.0 < b.0 || (a.0 == b.0 && a.1 < b.1)
}

// Laws

/// Every second from the year -262143 to the year 262142 lies within the calendar, with any
/// nanoseconds below a full second; beyond that it has to be the last second of a minute, and
/// below two seconds.
pub proof fn law_calendar(secs: i64, nanos: u32)
    ensures
        nanos < 1_000_000_000 ==> (in_calendar(secs, nanos) <==> -8334601228800 <= secs
            <= 8210266876799),
        1_000_000_000 <= nanos < 2_000_000_000 ==> (in_calendar(secs, nanos) <==> -8334601228800
            <= secs <= 8210266876799 && (secs + 1) % 60 == 0),
        nanos >= 2_000_000_000 ==> !in_calendar(secs, nanos),
{
}

/// Going back some minutes and on again as many comes to the same point in time; it is possible
/// exactly when it stays within the calendar.
pub proof fn law_minutes_earlier(secs: i64, nanos: u32, minutes: i64)
    requires
        in_calendar(secs, nanos),
        nanos < 1_000_000_000,
        minutes > 0,
    ensures
        minutes_earlier(secs, nanos, minutes) is Some <==> secs - 60 * minutes >= -8334601228800,
        minutes_earlier(secs, nanos, minutes) matches Some(then) ==> then.0 + 60 * minutes == secs
            && then.1 == nanos,
{
}

/// Of two points in time outside of leap seconds, the one with fewer nanoseconds since 1970 is
/// the earlier one. Any two different ones are earlier and later, and never both.
pub proof fn law_earlier(a: (i64, u32), b: (i64, u32))
    ensures
        a.1 < 1_000_000_000 && b.1 < 1_000_000_000 ==> (earlier(a, b) <==> a.0 * 1_000_000_000
            + a.1 < b.0 * 1_000_000_000 + b.1),
        a != b ==> earlier(a, b) != earlier(b, a),
        !earlier(a, a),
{
}

} // verus!
