//! The clock and how moments are written.

use vstd::prelude::*;

use crate::text;

verus! {

/// A moment: the seconds since the beginning of 1970, and the nanoseconds of the
/// current second.
#[derive(Debug, Clone, Copy, PartialEq, Eq, Structural)]
pub struct Moment {
    pub secs: i64,
    pub nanos: u32,
}

/// The last second that can be written.
pub const LAST_SECOND: i64 = 8210266876799;

impl Moment {
    /// Whether the moment can be written.
    pub open spec fn in_range(self) -> bool {
        0 <= self.secs <= LAST_SECOND && self.nanos < 1_000_000_000
    }
}

/// `chrono::Utc::now`. The moment is one that `chrono` can hold, and not before
/// 1970; which one it is, the machine's clock decides.
#[verifier::external_body]
pub(crate) fn now() -> (r: Moment)
    ensures
        r.in_range(),
{
    let t = chrono::Utc::now();
    Moment { secs: t.timestamp(), nanos: t.timestamp_subsec_nanos() }
}

/// How a moment is written at a distance of so many seconds from universal time, by
/// `DateTime::<FixedOffset>::to_rfc3339`.
pub uninterp spec fn rfc3339(secs: i64, nanos: u32, offset: i32) -> Seq<char>;

/// Whether a distance from universal time is less than a day.
pub open spec fn is_offset(offset: i32) -> bool {
    -86400 < offset < 86400
}

/// `chrono::DateTime::<FixedOffset>::to_rfc3339`: a function of the moment and of
/// the distance.
#[verifier::external_body]
fn iso_at(m: Moment, offset: i32) -> (r: String)
    requires
        m.in_range(),
        is_offset(offset),
    ensures
        r@ == rfc3339(m.secs, m.nanos, offset),
{
    let utc = chrono::DateTime::<chrono::Utc>::from_timestamp(m.secs, m.nanos).unwrap();
    utc.with_timezone(&chrono::FixedOffset::east_opt(offset).unwrap()).to_rfc3339()
}

/// How a moment in universal time is written.
pub open spec fn utc_iso(secs: i64, nanos: u32) -> Seq<char> {
    rfc3339(secs, nanos, 0)
}

/// How a moment in universal time is written.
pub fn iso_of(m: Moment) -> (r: String)
    requires
        m.in_range(),
    ensures
        r@ == utc_iso(m.secs, m.nanos),
{
    iso_at(m, 0)
}

/// The name of a day of the week, counted from Sunday.
pub open spec fn day_name(d: int) -> Seq<char> {
    if d == 0 {
        "Sunday"@
    } else if d == 1 {
        "Monday"@
    } else if d == 2 {
        "Tuesday"@
    } else if d == 3 {
        "Wednesday"@
    } else if d == 4 {
        "Thursday"@
    } else if d == 5 {
        "Friday"@
    } else {
        "Saturday"@
    }
}

/// The day of the week of so many seconds since the beginning of 1970, which was a
/// Thursday.
pub open spec fn weekday(secs: int) -> Seq<char> {
    day_name((secs / 86400 + 4) % 7)
}

/// The day of the week of a moment, at a distance from universal time.
pub fn weekday_at(m: Moment, offset: i32) -> (r: &'static str)
    requires
        m.in_range(),
        is_offset(offset),
    ensures
        r@ == weekday(m.secs + offset),
{
    let shifted: i64 = m.secs + offset as i64 + 345600;
    assert(shifted / 86400 == (m.secs + offset) / 86400 + 4);
    let d: i64 = (shifted / 86400) % 7;
    if d == 0 {
        "Sunday"
    } else if d == 1 {
        "Monday"
    } else if d == 2 {
        "Tuesday"
    } else if d == 3 {
        "Wednesday"
    } else if d == 4 {
        "Thursday"
    } else if d == 5 {
        "Friday"
    } else {
        "Saturday"
    }
}

/// A number below a hundred with two digits.
pub open spec fn two_digits(n: int) -> Seq<char> {
    seq![text::digit(n / 10), text::digit(n % 10)]
}

/// A distance from universal time to the nearest minute, as `+01:00`.
pub open spec fn offset_text(offset: i32) -> Seq<char> {
    let minutes = ((if offset < 0 {
        -offset
    } else {
        offset as int
    }) + 30) / 60;
    seq![if offset < 0 { '-' } else { '+' }] + two_digits(minutes / 60) + seq![':'] + two_digits(
        minutes % 60,
    )
}

/// Add a number below a hundred with two digits.
fn push_two(out: &mut String, n: u32)
    requires
        n < 100,
    ensures
        final(out)@ == old(out)@ + two_digits(n as int),
{
    let ghost before = out@;
    out.push((0x30 + (n / 10) as u8) as char);
    out.push((0x30 + (n % 10) as u8) as char);
    assert(out@ =~= before + two_digits(n as int));
}

/// A distance from universal time to the nearest minute.
pub fn write_offset(offset: i32) -> (r: String)
    requires
        is_offset(offset),
    ensures
        r@ == offset_text(offset),
{
    let size: u32 = if offset < 0 {
        (-offset) as u32
    } else {
        offset as u32
    };
    let minutes: u32 = (size + 30) / 60;
    let mut out = String::new();
    out.push(if offset < 0 { '-' } else { '+' });
    push_two(&mut out, minutes / 60);
    out.push(':');
    push_two(&mut out, minutes % 60);
    assert(out@ =~= offset_text(offset));
    out
}

/// A moment as a time zone writes it.
#[derive(Debug, Clone, PartialEq, Eq)]
pub struct LocalTime {
    pub iso: String,
    /// The distance from universal time, as `+01:00`.
    pub offset: String,
    pub weekday: String,
}

/// A moment as a time zone writes it, as values.
pub struct LocalView {
    pub iso: Seq<char>,
    pub offset: Seq<char>,
    pub weekday: Seq<char>,
}

impl View for LocalTime {
    type V = LocalView;

    open spec fn view(&self) -> LocalView {
        LocalView { iso: self.iso@, offset: self.offset@, weekday: self.weekday@ }
    }
}

/// A moment in a zone that may be unknown, as values.
pub open spec fn local_view(r: Option<LocalTime>) -> Option<LocalView> {
    match r {
        Some(t) => Some(t@),
        None => None,
    }
}

/// A moment as it is written at a distance from universal time.
pub open spec fn local_time(m: Moment, offset: i32) -> LocalView {
    LocalView {
        iso: rfc3339(m.secs, m.nanos, offset),
        offset: offset_text(offset),
        weekday: weekday(m.secs + offset),
    }
}

/// A moment as it is written at a distance from universal time.
pub fn time_at(m: Moment, offset: i32) -> (r: LocalTime)
    requires
        m.in_range(),
        is_offset(offset),
    ensures
        r@ == local_time(m, offset),
{
    LocalTime {
        iso: iso_at(m, offset),
        offset: write_offset(offset),
        weekday: text::own(weekday_at(m, offset)),
    }
}

/// How far a zone of the IANA database that `chrono_tz` carries is from universal
/// time at a second, in seconds; nothing when there is no such zone.
pub uninterp spec fn zone_offset(secs: i64, zone: Seq<char>) -> Option<i32>;

/// `<chrono_tz::Tz as FromStr>::from_str`, and for a zone that it knows the offset
/// that `DateTime::with_timezone` finds: a function of the second and the zone's
/// name, and less than a day, which is all that a `FixedOffset` holds.
#[verifier::external_body]
fn offset_in(m: Moment, zone: &str) -> (r: Option<i32>)
    requires
        m.in_range(),
    ensures
        r == zone_offset(m.secs, zone@),
        r is Some ==> is_offset(r->0),
{
    let tz: chrono_tz::Tz = zone.parse().ok()?;
    let utc = chrono::DateTime::<chrono::Utc>::from_timestamp(m.secs, m.nanos).unwrap();
    Some(chrono::Offset::fix(utc.with_timezone(&tz).offset()).local_minus_utc())
}

/// How a moment is written in a zone; nothing when there is no such zone.
pub open spec fn zone_time(m: Moment, zone: Seq<char>) -> Option<LocalView> {
    match zone_offset(m.secs, zone) {
        Some(offset) => Some(local_time(m, offset)),
        None => None,
    }
}

/// How a moment is written in a zone.
pub fn time_in(m: Moment, zone: &str) -> (r: Option<LocalTime>)
    requires
        m.in_range(),
    ensures
        local_view(r) == zone_time(m, zone@),
{
    match offset_in(m, zone) {
        Some(offset) => Some(time_at(m, offset)),
        None => None,
    }
}

// ---- Laws ---------------------------------------------------------------

/// The days of the week follow each other: the first of January 1970 was a Thursday, a
/// day has one name from its first second to its last, and after seven days the names
/// come again.
pub proof fn law_days_follow_each_other(secs: int, r: int)
    requires
        0 <= r < 86400,
    ensures
        weekday(r) == "Thursday"@,
        weekday(86400 + r) == "Friday"@,
        weekday(2 * 86400 + r) == "Saturday"@,
        weekday(3 * 86400 + r) == "Sunday"@,
        weekday(4 * 86400 + r) == "Monday"@,
        weekday(5 * 86400 + r) == "Tuesday"@,
        weekday(6 * 86400 + r) == "Wednesday"@,
        weekday(secs + 7 * 86400) == weekday(secs),
{
}

/// A distance of whole minutes is written with its sign, its hours and its minutes, two
/// digits each; and a local time is written with its own distance and its own day.
pub proof fn law_distances_are_written(h: int, m: int, t: Moment, offset: i32)
    requires
        0 <= h < 24,
        0 <= m < 60,
    ensures
        offset == h * 3600 + m * 60 ==> offset_text(offset) == seq![
            '+',
            (0x30 + h / 10) as char,
            (0x30 + h % 10) as char,
            ':',
            (0x30 + m / 10) as char,
            (0x30 + m % 10) as char,
        ],
        offset == -(h * 3600 + m * 60) && offset < 0 ==> offset_text(offset) == seq![
            '-',
            (0x30 + h / 10) as char,
            (0x30 + h % 10) as char,
            ':',
            (0x30 + m / 10) as char,
            (0x30 + m % 10) as char,
        ],
        local_time(t, offset).iso == rfc3339(t.secs, t.nanos, offset),
        local_time(t, offset).offset == offset_text(offset),
        local_time(t, offset).weekday == weekday(t.secs + offset),
{
    if offset == h * 3600 + m * 60 {
        assert((offset + 30) / 60 == h * 60 + m);
        assert((h * 60 + m) / 60 == h && (h * 60 + m) % 60 == m);
        assert(offset_text(offset) =~= seq![
            '+',
            (0x30 + h / 10) as char,
            (0x30 + h % 10) as char,
            ':',
            (0x30 + m / 10) as char,
            (0x30 + m % 10) as char,
        ]);
    }
    if offset == -(h * 3600 + m * 60) && offset < 0 {
        assert((-offset + 30) / 60 == h * 60 + m);
        assert((h * 60 + m) / 60 == h && (h * 60 + m) % 60 == m);
        assert(offset_text(offset) =~= seq![
            '-',
            (0x30 + h / 10) as char,
            (0x30 + h % 10) as char,
            ':',
            (0x30 + m / 10) as char,
            (0x30 + m % 10) as char,
        ]);
    }
}

} // verus!
