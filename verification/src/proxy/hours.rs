//! The hours at which a server is in use.

use vstd::prelude::*;

verus! {

/// A decimal digit, as a byte.
pub open spec fn is_digit(b: u8) -> bool {
    48 <= b <= 57
}

/// The number that two bytes stand for, where both are digits.
pub open spec fn two_digits(a: u8, b: u8) -> Option<nat> {
    if is_digit(a) && is_digit(b) {
        Some(((a - 48) * 10 + (b - 48)) as nat)
    } else {
        None
    }
}

fn read_two_digits(a: u8, b: u8) -> (r: Option<u32>)
    ensures
        match r {
            Some(n) => two_digits(a, b) == Some(n as nat),
            None => two_digits(a, b) is None,
        },
{
    if 48 <= a && a <= 57 && 48 <= b && b <= 57 {
        Some(((a - 48) as u32) * 10 + ((b - 48) as u32))
    } else {
        None
    }
}

/// The hour and the minute of a time of day written `HH:MM`.
pub open spec fn time_of_day(s: Seq<u8>) -> Option<(nat, nat)> {
    if s.len() != 5 || s[2] != 58 {
        None
    } else {
        match (two_digits(s[0], s[1]), two_digits(s[3], s[4])) {
            (Some(h), Some(m)) => if h <= 23 && m <= 59 {
                Some((h, m))
            } else {
                None
            },
            _ => None,
        }
    }
}

/// Reads `HH:MM` into hour and minute. Returns `None` on malformed input.
pub fn parse_hhmm(s: &str) -> (r: Option<(u32, u32)>)
    ensures
        match r {
            Some((h, m)) => time_of_day(vstd::utf8::encode_utf8(s@)) == Some((h as nat, m as nat)),
            None => time_of_day(vstd::utf8::encode_utf8(s@)) is None,
        },
{
    let bytes = s.as_bytes();
    if bytes.len() != 5 || bytes[2] != 58 {
        return None;
    }
    match (read_two_digits(bytes[0], bytes[1]), read_two_digits(bytes[3], bytes[4])) {
        (Some(h), Some(m)) => if h <= 23 && m <= 59 {
            Some((h, m))
        } else {
            None
        },
        _ => None,
    }
}

/// The minutes since midnight.
pub open spec fn minutes(time: (nat, nat)) -> nat {
    time.0 * 60 + time.1
}

/// The time lies in the window, ends included. A window whose start lies after its end goes
/// over midnight.
pub open spec fn in_window(start: nat, end: nat, now: nat) -> bool {
    if start <= end {
        start <= now <= end
    } else {
        now >= start || now <= end
    }
}

/// Whether a time of day, as hour and minute, lies in a window, ends included.
pub fn is_in_window(start: (u32, u32), end: (u32, u32), now: (u32, u32)) -> (r: bool)
    requires
        start.0 < 24,
        start.1 < 60,
        end.0 < 24,
        end.1 < 60,
        now.0 < 24,
        now.1 < 60,
    ensures
        r == in_window(
            minutes((start.0 as nat, start.1 as nat)),
            minutes((end.0 as nat, end.1 as nat)),
            minutes((now.0 as nat, now.1 as nat)),
        ),
{
    let from: u32 = start.0 * 60 + start.1;
    let to: u32 = end.0 * 60 + end.1;
    let at: u32 = now.0 * 60 + now.1;
    if from <= to {
        from <= at && at <= to
    } else {
        at >= from || at <= to
    }
}

/// The hour and the minute that it is in a time zone at a number of seconds since 1970;
/// `None` where the zone is not known or the moment is out of the calendar's range.
pub uninterp spec fn local_time(zone: Seq<char>, seconds: int) -> Option<(u32, u32)>;

/// `chrono_tz::Tz::from_str` of the zone, and `chrono::DateTime::with_timezone` of the
/// moment, of which the hour and the minute are read. These lie in their ranges.
#[verifier::external_body]
fn read_local_time(zone: &str, seconds: i64) -> (r: Option<(u32, u32)>)
    ensures
        r == local_time(zone@, seconds as int),
        r is Some ==> (r->0).0 < 24 && (r->0).1 < 60,
{
    let zone: chrono_tz::Tz = zone.parse().ok()?;
    let moment = chrono::DateTime::from_timestamp(seconds, 0)?.with_timezone(&zone);
    Some((chrono::Timelike::hour(&moment), chrono::Timelike::minute(&moment)))
}

/// `chrono::Utc::now`: the seconds since 1970. Which number comes is left to the clock.
#[verifier::external_body]
fn seconds_now() -> i64 {
    chrono::Utc::now().timestamp()
}

/// The hours at which a server is in use.
#[derive(Debug)]
pub struct ActiveHours {
    pub start: Option<String>,
    pub end: Option<String>,
    pub timezone: Option<String>,
}

/// The server is in use at this moment. Where any field is absent or malformed, or the zone
/// is not known, it always is.
pub open spec fn active_at(hours: ActiveHours, seconds: int) -> bool {
    match (hours.start, hours.end, hours.timezone) {
        (Some(start), Some(end), Some(zone)) => match (
            time_of_day(vstd::utf8::encode_utf8(start@)),
            time_of_day(vstd::utf8::encode_utf8(end@)),
            local_time(zone@, seconds),
        ) {
            (Some(start), Some(end), Some(now)) => in_window(
                minutes(start),
                minutes(end),
                minutes((now.0 as nat, now.1 as nat)),
            ),
            _ => true,
        },
        _ => true,
    }
}

/// Whether a server is within its configured active hours window, the local time being
/// given; `None` where the time zone is not known.
pub fn is_active_at_local(hours: &ActiveHours, local: Option<(u32, u32)>) -> (r: bool)
    requires
        local matches Some(now) ==> now.0 < 24 && now.1 < 60,
    ensures
        r == (match (hours.start, hours.end, local) {
            (Some(start), Some(end), Some(now)) => match (
                time_of_day(vstd::utf8::encode_utf8(start@)),
                time_of_day(vstd::utf8::encode_utf8(end@)),
            ) {
                (Some(start), Some(end)) => in_window(
                    minutes(start),
                    minutes(end),
                    minutes((now.0 as nat, now.1 as nat)),
                ),
                _ => true,
            },
            _ => true,
        }),
{
    match (&hours.start, &hours.end, local) {
        (Some(start), Some(end), Some(now)) => match (
            parse_hhmm(start.as_str()),
            parse_hhmm(end.as_str()),
        ) {
            (Some(start), Some(end)) => is_in_window(start, end, now),
            _ => true,
        },
        _ => true,
    }
}

/// Whether a server is within its configured active hours window at this moment.
pub fn is_server_active_at(hours: &ActiveHours, seconds: i64) -> (r: bool)
    ensures
        r == active_at(*hours, seconds as int),
{
    match &hours.timezone {
        Some(zone) => is_active_at_local(hours, read_local_time(zone.as_str(), seconds)),
        None => true,
    }
}

/// Whether the server is within its configured active hours window right now. Fails open:
/// it is where any field is absent or the time zone is not known.
pub fn is_server_active_now(hours: &ActiveHours) -> (r: bool)
    ensures
        exists|seconds: int| r == #[trigger] active_at(*hours, seconds),
{
    let seconds: i64 = seconds_now();
    let r = is_server_active_at(hours, seconds);
    assert(r == active_at(*hours, seconds as int));
    r
}

/// A window that goes over midnight is closed exactly after its end and before its start.
pub proof fn law_window_over_midnight(start: nat, end: nat, now: nat)
    requires
        start > end,
    ensures
        in_window(start, end, now) <==> !(end < now < start),
{
}

/// Without a start, an end, or a known time zone, and where a time is not written `HH:MM`, a
/// server is always in use.
pub proof fn law_incomplete_hours_are_open(hours: ActiveHours, seconds: int)
    requires
        hours.start is None || hours.end is None || hours.timezone is None || local_time(
            hours.timezone->0@,
            seconds,
        ) is None || time_of_day(vstd::utf8::encode_utf8(hours.start->0@)) is None || time_of_day(
            vstd::utf8::encode_utf8(hours.end->0@),
        ) is None,
    ensures
        active_at(hours, seconds),
{
}

} // verus!
