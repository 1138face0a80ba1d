//! Points in time, and how a clock shows them.

use crate::text;
use vstd::prelude::*;

verus! {

/// A point in time: seconds since 1970 and nanoseconds, within the years that chrono's
/// calendar covers. The nanoseconds run past a second only in a leap second.
#[derive(Debug, Clone, Copy, PartialEq, Eq, Structural)]
pub struct Timestamp {
    secs: i64,
    nanos: u32,
}

/// The seconds and nanoseconds that chrono's calendar covers.
pub open spec fn is_covered(secs: i64, nanos: u32) -> bool {
    &&& -8_334_601_228_800 <= secs <= 8_210_266_876_799
    &&& nanos < 1_000_000_000 || (nanos < 2_000_000_000 && secs as int % 60 == 59)
}

impl Timestamp {
    #[verifier::type_invariant]
    spec fn covered(self) -> bool {
        is_covered(self.secs, self.nanos)
    }

    pub closed spec fn spec_secs(self) -> i64 {
        self.secs
    }

    pub closed spec fn spec_nanos(self) -> u32 {
        self.nanos
    }

    /// The point in time so many seconds after 1970 began, where the calendar covers it.
    pub fn new(secs: i64, nanos: u32) -> (r: Option<Timestamp>)
        ensures
            r is Some <==> is_covered(secs, nanos),
            r matches Some(t) ==> t.spec_secs() == secs && t.spec_nanos() == nanos,
    {
        let in_minute: i64 = secs % 60;
        let last_second: bool = in_minute == 59 || in_minute == -1;
        assert(last_second == (secs as int % 60 == 59));
        if -8_334_601_228_800 <= secs && secs <= 8_210_266_876_799 && (nanos < 1_000_000_000 || (
        nanos < 2_000_000_000 && last_second)) {
            Some(Timestamp { secs, nanos })
        } else {
            None
        }
    }

    pub fn secs(&self) -> (r: i64)
        ensures
            r == self.spec_secs(),
    {
        self.secs
    }

    pub fn nanos(&self) -> (r: u32)
        ensures
            r == self.spec_nanos(),
    {
        self.nanos
    }
}

/// The point in time that chrono reads from a text, as seconds and nanoseconds.
pub uninterp spec fn parsed_time(s: Seq<char>) -> Option<(i64, u32)>;

/// `str::parse` into a `DateTime<Utc>` of chrono, by the name of its result, which lies
/// within chrono's calendar.
#[verifier::external_body]
fn parse_time(s: &str) -> (r: Option<(i64, u32)>)
    ensures
        r == parsed_time(s@),
        r matches Some(t) ==> is_covered(t.0, t.1),
{
    let parsed = s.parse::<chrono::DateTime<chrono::Utc>>().ok();
    parsed.map(|t| (t.timestamp(), t.timestamp_subsec_nanos()))
}

/// The RFC 3339 text that chrono writes for a point in time.
pub uninterp spec fn rfc3339_text(secs: i64, nanos: u32) -> Seq<char>;

/// `DateTime::to_rfc3339` of chrono, by the name of its result. For the years 0 to 9999,
/// leap seconds aside, the text reads back as the point in time that it was written for.
#[verifier::external_body]
fn write_time(secs: i64, nanos: u32) -> (r: String)
    requires
        is_covered(secs, nanos),
    ensures
        r@ == rfc3339_text(secs, nanos),
        -62_167_219_200 <= secs <= 253_402_300_799 && nanos < 1_000_000_000 ==> parsed_time(r@)
            == Some((secs, nanos)),
{
    chrono::DateTime::<chrono::Utc>::from_timestamp(secs, nanos).unwrap().to_rfc3339()
}

/// `Utc::now` of chrono: the machine's clock, of which only that the calendar covers it is
/// known.
#[verifier::external_body]
fn clock() -> (r: (i64, u32))
    ensures
        is_covered(r.0, r.1),
        r.1 < 1_000_000_000,
{
    let now = chrono::Utc::now();
    (now.timestamp(), now.timestamp_subsec_nanos())
}

/// `Local.from_utc_datetime` of chrono, then `Timelike::hour` and `Timelike::minute`: what
/// a clock in the machine's time zone shows. The zone decides which hour and minute.
#[verifier::external_body]
fn local_clock(secs: i64, nanos: u32) -> (r: (u32, u32))
    requires
        is_covered(secs, nanos),
    ensures
        r.0 < 24,
        r.1 < 60,
{
    let utc = chrono::DateTime::<chrono::Utc>::from_timestamp(secs, nanos).unwrap();
    let local = chrono::TimeZone::from_utc_datetime(&chrono::Local, &utc.naive_utc());
    (chrono::Timelike::hour(&local), chrono::Timelike::minute(&local))
}

impl Timestamp {
    /// The point in time that a text gives, if it gives one.
    pub fn parse(s: &str) -> (r: Option<Timestamp>)
        ensures
            r is Some <==> parsed_time(s@) is Some,
            r matches Some(t) ==> parsed_time(s@) == Some((t.spec_secs(), t.spec_nanos())),
    {
        match parse_time(s) {
            Some(t) => Timestamp::new(t.0, t.1),
            None => None,
        }
    }

    /// The present.
    pub fn now() -> (r: Timestamp)
        ensures
            r.spec_nanos() < 1_000_000_000,
    {
        let t = clock();
        Timestamp { secs: t.0, nanos: t.1 }
    }

    /// The text in which a point in time is stored. In the years 0 to 9999, leap seconds
    /// aside, it reads back as the same point in time.
    pub fn text(&self) -> (r: String)
        ensures
            r@ == rfc3339_text(self.spec_secs(), self.spec_nanos()),
            -62_167_219_200 <= self.spec_secs() <= 253_402_300_799 && self.spec_nanos()
                < 1_000_000_000 ==> parsed_time(r@) == Some((self.spec_secs(), self.spec_nanos())),
    {
        proof {
            use_type_invariant(self);
        }
        write_time(self.secs, self.nanos)
    }

    /// The time of day in the machine's time zone, as a clock with 24 or with 12 hours
    /// shows it.
    pub fn time_of_day(&self, hour_format_24: bool) -> (r: String)
        ensures
            is_time_of_day(r@, hour_format_24),
    {
        proof {
            use_type_invariant(self);
        }
        let (h, m) = local_clock(self.secs, self.nanos);
        clock_text(h, m, hour_format_24)
    }
}

/// Two digits.
pub open spec fn two_digits(n: nat) -> Seq<char> {
    seq![text::digit(n / 10), text::digit(n % 10)]
}

/// The hour on a clock face with 12 hours.
pub open spec fn hour_of_12(h: u32) -> nat {
    if h % 12 == 0 {
        12
    } else {
        (h % 12) as nat
    }
}

/// What a clock shows: `17:05`, or `05:05 PM`.
pub open spec fn clock_face(h: u32, m: u32, hour_format_24: bool) -> Seq<char> {
    if hour_format_24 {
        two_digits(h as nat) + ":"@ + two_digits(m as nat)
    } else {
        two_digits(hour_of_12(h)) + ":"@ + two_digits(m as nat) + (if h < 12 {
            " AM"@
        } else {
            " PM"@
        })
    }
}

/// What a clock shows at some hour and minute.
pub open spec fn is_time_of_day(s: Seq<char>, hour_format_24: bool) -> bool {
    exists|h: u32, m: u32| h < 24 && m < 60 && s == #[trigger] clock_face(h, m, hour_format_24)
}

fn push_two_digits(out: &mut String, n: u32)
    requires
        n < 100,
    ensures
        final(out)@ == old(out)@ + two_digits(n as nat),
{
    let tens: u8 = 48 + (n / 10) as u8;
    let ones: u8 = 48 + (n % 10) as u8;
    out.push(tens as char);
    out.push(ones as char);
    assert(out@ =~= old(out)@ + two_digits(n as nat));
}

/// What a clock with 24 or with 12 hours shows at an hour and a minute.
pub fn clock_text(h: u32, m: u32, hour_format_24: bool) -> (r: String)
    requires
        h < 24,
        m < 60,
    ensures
        r@ == clock_face(h, m, hour_format_24),
{
    let mut out = String::new();
    let hour: u32 = if hour_format_24 {
        h
    } else if h % 12 == 0 {
        12
    } else {
        h % 12
    };
    push_two_digits(&mut out, hour);
    assert(out@ =~= two_digits(hour as nat));
    out.append(":");
    push_two_digits(&mut out, m);
    if !hour_format_24 {
        out.append(if h < 12 {
            " AM"
        } else {
            " PM"
        });
    }
    out
}

/// The two clocks tell the same time: the 12-hour face with its half of the day fixes the
/// hour.
pub proof fn law_twelve_hour_clock_is_unambiguous(a: u32, b: u32)
    requires
        a < 24,
        b < 24,
        hour_of_12(a) == hour_of_12(b),
        (a < 12) == (b < 12),
    ensures
        a == b,
{
}

} // verus!
