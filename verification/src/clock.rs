//! Points in time: reading and writing them as text, the time ranges that a graph can show, and
//! the labels of a graph's time axis. `chrono` knows the calendar and the clock.
use chrono::TimeZone;
use vstd::prelude::*;

use crate::text;

verus! {

/// The earliest second that `chrono` can represent, counted from the Unix epoch.
pub const MIN_TIME: i64 = -8_334_601_228_800;

/// The latest second that `chrono` can represent, counted from the Unix epoch.
pub const MAX_TIME: i64 = 8_210_266_876_799;

/// The earliest second that a four digit year can name in any time zone.
pub const MIN_WRITTEN_TIME: i64 = -62_167_305_600;

/// The latest second that a four digit year can name in any time zone.
pub const MAX_WRITTEN_TIME: i64 = 253_402_387_199;

pub const DAY: i64 = 86_400;

/// Date and time of a plot's hover label.
pub const HOVER_PATTERN: &'static str = "%b %d, %Y  %-I:%M %P";

/// Hour of a plot's axis label.
pub const AXIS_PATTERN: &'static str = "%-I%P";

/// Date and time in a request to the weather service.
pub const REQUEST_PATTERN: &'static str = "%Y-%m-%dT%H:%M:%SZ";

/// Date and time of the last update in the status bar.
pub const UPDATE_PATTERN: &'static str = "%Y-%m-%d %H:%M";

/// `chrono` can represent this second.
pub open spec fn representable(secs: int) -> bool {
    MIN_TIME <= secs <= MAX_TIME
}

/// A pattern that this library formats times with.
pub open spec fn known_pattern(pattern: Seq<char>) -> bool {
    ||| pattern == HOVER_PATTERN@
    ||| pattern == AXIS_PATTERN@
    ||| pattern == REQUEST_PATTERN@
    ||| pattern == UPDATE_PATTERN@
}

/// The time `secs` in UTC, written by `pattern`.
pub uninterp spec fn utc_text(secs: i64, pattern: Seq<char>) -> Seq<char>;

/// The point in time that an RFC 3339 text names: seconds since the Unix epoch and nanoseconds
/// within that second.
pub uninterp spec fn rfc3339_instant(text: Seq<char>) -> Option<(i64, u32)>;

/// The hour of the day, from 0 to 23, that the second `secs` lies in.
pub open spec fn hour_of_day(secs: int) -> int {
    secs % 86_400 / 3600
}

/// An hour of the day as `AXIS_PATTERN` writes it: from 1 to 12, then `am` before noon and `pm` from
/// noon on.
pub open spec fn hour_text(hour: int) -> Seq<char> {
    let number: int = if hour % 12 == 0 {
        12
    } else {
        hour % 12
    };
    text::decimal(number as nat) + if hour < 12 {
        "am"@
    } else {
        "pm"@
    }
}

/// Formats a time in UTC with `chrono::DateTime::format`. `chrono::Utc.timestamp_opt` gives a time
/// for exactly the seconds from `MIN_TIME` to `MAX_TIME`, and the text depends on the second and
/// the pattern alone. `%-I` is the hour from 1 to 12 without padding and `%P` is `am` or `pm`.
#[verifier::external_body]
pub(crate) fn format_utc(secs: i64, pattern: &str) -> (r: Option<String>)
    requires
        known_pattern(pattern@),
    ensures
        match r {
            Some(text) => {
                &&& representable(secs as int)
                &&& text@ == utc_text(secs, pattern@)
                &&& pattern@ == AXIS_PATTERN@ ==> text@ == hour_text(hour_of_day(secs as int))
            },
            None => !representable(secs as int),
        },
{
    chrono::Utc.timestamp_opt(secs, 0).single().map(|time| time.format(pattern).to_string())
}

/// `text` is the time `secs` written by `pattern` on a clock that is `offset` seconds ahead of UTC.
pub open spec fn written_at(text: Seq<char>, secs: int, offset: int, pattern: Seq<char>) -> bool {
    &&& representable(secs + offset) ==> text == utc_text((secs + offset) as i64, pattern)
    &&& pattern == AXIS_PATTERN@ ==> text == hour_text(hour_of_day(secs + offset))
}

/// Formats a time in the machine's time zone, `chrono::Local`, with `chrono::DateTime::format`.
/// `chrono::Utc.timestamp_opt` gives a time for exactly the seconds from `MIN_TIME` to `MAX_TIME`.
/// A time zone is ahead of UTC or behind it by whole seconds, less than a day of them, and what is
/// written is the time in UTC plus that offset, since no known pattern writes the zone. Which offset
/// it is depends on the machine and is not said. Nor is the date of a time whose local date `chrono`
/// cannot represent.
#[verifier::external_body]
pub(crate) fn format_local(secs: i64, pattern: &str) -> (r: Option<String>)
    requires
        known_pattern(pattern@),
    ensures
        r is Some <==> representable(secs as int),
        r is Some ==> exists|offset: int|
            -86_400 < offset < 86_400 && #[trigger] written_at(
                r->0@,
                secs as int,
                offset,
                pattern@,
            ),
{
    chrono::Utc.timestamp_opt(secs, 0).single().map(
        |time| time.with_timezone(&chrono::Local).format(pattern).to_string())
}

/// The machine writes the second `secs` by `pattern` as `text` in its own time zone, at a call of
/// [`format_local`].
pub closed spec fn written_locally(secs: i64, pattern: Seq<char>, text: Seq<char>) -> bool {
    exists|p: &str, r: Option<String>|
        p@ == pattern && #[trigger] call_ensures(format_local, (secs, p), r) && r is Some && r->0@
            == text
}

/// What the machine writes in its own time zone is what formatting that second gives, and is the time
/// on a clock less than a day ahead of UTC or behind it.
pub proof fn local_text_is_of_its_second(secs: i64, pattern: Seq<char>, text: Seq<char>)
    requires
        written_locally(secs, pattern, text),
    ensures
        representable(secs as int),
        exists|offset: int|
            -86_400 < offset < 86_400 && #[trigger] written_at(text, secs as int, offset, pattern),
{
    let (p, r) = choose|p: &str, r: Option<String>|
        p@ == pattern && #[trigger] call_ensures(format_local, (secs, p), r) && r is Some && r->0@
            == text;
    assert(r is Some);
}

/// Reads the clock with `chrono::Utc::now`, which gives a time since the Unix epoch that `chrono`
/// can represent.
#[verifier::external_body]
pub(crate) fn current_time() -> (r: i64)
    ensures
        0 <= r <= MAX_TIME,
{
    chrono::Utc::now().timestamp()
}

/// Reads an RFC 3339 text with `chrono::DateTime::parse_from_rfc3339`. The result depends on the
/// text alone. A year has four digits and an offset is less than a day, which bounds the seconds;
/// the nanoseconds reach a second or more only in a leap second, which ends a minute.
#[verifier::external_body]
pub(crate) fn parse_instant(text: &str) -> (r: Option<(i64, u32)>)
    ensures
        r == rfc3339_instant(text@),
        r matches Some((secs, nanos)) ==> {
            &&& MIN_WRITTEN_TIME <= secs <= MAX_WRITTEN_TIME
            &&& nanos < 2_000_000_000
            &&& nanos >= 1_000_000_000 ==> secs as int % 60 == 59
        },
{
    let time = chrono::DateTime::parse_from_rfc3339(text).ok()?;
    Some((time.timestamp(), time.timestamp_subsec_nanos()))
}

/// A point in time as `chrono` holds it.
pub open spec fn valid_instant(instant: (i64, u32)) -> bool {
    &&& representable(instant.0 as int)
    &&& instant.1 < 2_000_000_000
    &&& instant.1 >= 1_000_000_000 ==> instant.0 as int % 60 == 59
}

/// The nanoseconds from `early` to `late`. A leap second counts where the time of day of one lies
/// on its far side.
pub open spec fn elapsed_nanos(early: (i64, u32), late: (i64, u32)) -> int {
    let early_of_day = early.0 as int % 86_400;
    let late_of_day = late.0 as int % 86_400;
    let leap: int = if late_of_day > early_of_day && early.1 >= 1_000_000_000 {
        1
    } else if late_of_day < early_of_day && late.1 >= 1_000_000_000 {
        -1
    } else {
        0
    };
    (late.0 - early.0 + leap) * 1_000_000_000 + late.1 - early.1
}

/// `n / d` without its fraction.
pub open spec fn quotient(n: int, d: int) -> int {
    if n >= 0 {
        n / d
    } else {
        -((-n) / d)
    }
}

/// The whole days from `early` to `late`.
pub open spec fn whole_days(early: (i64, u32), late: (i64, u32)) -> int {
    quotient(elapsed_nanos(early, late), 86_400_000_000_000)
}

/// Subtracts one `chrono::DateTime` from another and counts the whole days with
/// `chrono::TimeDelta::num_days`, which drops the fraction of a day.
#[verifier::external_body]
pub(crate) fn days_between(early: (i64, u32), late: (i64, u32)) -> (r: i64)
    requires
        valid_instant(early),
        valid_instant(late),
    ensures
        r == whole_days(early, late),
{
    let start = chrono::DateTime::from_timestamp(early.0, early.1).unwrap();
    let end = chrono::DateTime::from_timestamp(late.0, late.1).unwrap();
    (end - start).num_days()
}

/// The second that an RFC 3339 text names.
pub open spec fn timestamp_of(text: Seq<char>) -> Option<i64> {
    match rfc3339_instant(text) {
        Some((secs, nanos)) => Some(secs),
        None => None,
    }
}

/// The second since the Unix epoch that an RFC 3339 text names.
pub fn timestamp(text: &str) -> (r: Option<i64>)
    ensures
        r == timestamp_of(text@),
        r matches Some(secs) ==> MIN_WRITTEN_TIME <= secs <= MAX_WRITTEN_TIME,
{
    match parse_instant(text) {
        Some((secs, _)) => Some(secs),
        None => None,
    }
}

/// How far back a graph reaches.
#[derive(Clone, Copy, PartialEq, Eq, Structural, Debug)]
pub enum TimeRange {
    Last6Hours,
    Last12Hours,
    Last24Hours,
    Last7Days,
    Last30Days,
    All,
}

impl Default for TimeRange {
    fn default() -> (r: Self)
        ensures
            r == TimeRange::Last7Days,
    {
        TimeRange::Last7Days
    }
}

/// The length of a time range in seconds; `None` where it has no start.
pub open spec fn span(range: TimeRange) -> Option<int> {
    match range {
        TimeRange::Last6Hours => Some(6int * 3600),
        TimeRange::Last12Hours => Some(12int * 3600),
        TimeRange::Last24Hours => Some(24int * 3600),
        TimeRange::Last7Days => Some(7int * 86_400),
        TimeRange::Last30Days => Some(30int * 86_400),
        TimeRange::All => None,
    }
}

/// The first second of a time range that ends `now`.
pub open spec fn start_of(range: TimeRange, now: int) -> Option<int> {
    match span(range) {
        Some(secs) => Some(now - secs),
        None => None,
    }
}

/// The first second of a time range that ends at `now`.
pub fn range_start(range: TimeRange, now: i64) -> (r: Option<i64>)
    requires
        i64::MIN + 2_592_000 <= now,
    ensures
        match r {
            Some(t) => start_of(range, now as int) == Some(t as int),
            None => start_of(range, now as int) is None,
        },
{
    match range {
        TimeRange::Last6Hours => Some(now - 6 * 60 * 60),
        TimeRange::Last12Hours => Some(now - 12 * 60 * 60),
        TimeRange::Last24Hours => Some(now - 24 * 60 * 60),
        TimeRange::Last7Days => Some(now - 7 * 24 * 60 * 60),
        TimeRange::Last30Days => Some(now - 30 * 24 * 60 * 60),
        TimeRange::All => None,
    }
}

/// The clock reads the second `now` at a call of [`current_time`].
pub closed spec fn clock_reads(now: i64) -> bool {
    call_ensures(current_time, (), now)
}

/// The first second of a time range that ends at the present, which is the second that the clock
/// reads.
pub fn get_time_range_start(range: TimeRange) -> (r: Option<i64>)
    ensures
        r is None <==> range == TimeRange::All,
        r matches Some(t) ==> exists|now: i64| #[trigger]
            clock_reads(now) && 0 <= now <= MAX_TIME && start_of(range, now as int) == Some(
                t as int,
            ),
{
    let now = current_time();
    assert(clock_reads(now));
    let r = range_start(range, now);
    assert(r matches Some(t) ==> start_of(range, now as int) == Some(t as int));
    r
}

/// What the clock reads is what reading the clock gives.
proof fn clock_is_read(now: i64)
    requires
        clock_reads(now),
    ensures
        call_ensures(current_time, (), now),
        0 <= now <= MAX_TIME,
{
}

/// The seconds from the start of a range to its end at `now`.
pub open spec fn seconds_back(now: i64, start: Option<i64>) -> int {
    now - start->0
}

/// The ranges are six hours and its multiples: twelve hours are twice six, a day is twice twelve,
/// seven and thirty days are that many days, and the one without a limit has no start. All end at the
/// same second.
pub proof fn ranges_are_multiples_of_each_other(
    now: i64,
    six: Option<i64>,
    twelve: Option<i64>,
    day: Option<i64>,
    week: Option<i64>,
    month: Option<i64>,
    all: Option<i64>,
)
    requires
        call_ensures(range_start, (TimeRange::Last6Hours, now), six),
        call_ensures(range_start, (TimeRange::Last12Hours, now), twelve),
        call_ensures(range_start, (TimeRange::Last24Hours, now), day),
        call_ensures(range_start, (TimeRange::Last7Days, now), week),
        call_ensures(range_start, (TimeRange::Last30Days, now), month),
        call_ensures(range_start, (TimeRange::All, now), all),
    ensures
        six is Some && twelve is Some && day is Some && week is Some && month is Some,
        all is None,
        seconds_back(now, day) == DAY,
        2 * seconds_back(now, twelve) == seconds_back(now, day),
        4 * seconds_back(now, six) == seconds_back(now, day),
        seconds_back(now, week) == 7 * seconds_back(now, day),
        seconds_back(now, month) == 30 * seconds_back(now, day),
        DAY == 24 * 60 * 60,
{
}

/// A range that is asked for at the present starts its own length before a second that the clock
/// reads, whichever range it is.
pub proof fn ranges_start_before_what_the_clock_reads(range: TimeRange, r: Option<i64>)
    requires
        call_ensures(get_time_range_start, (range,), r),
    ensures
        range == TimeRange::All <==> r is None,
        range != TimeRange::All ==> exists|now: i64| #[trigger]
            clock_reads(now) && now >= 0 && 4 * seconds_back(now, r) == (match range {
                TimeRange::Last6Hours => 1 * DAY,
                TimeRange::Last12Hours => 2 * DAY,
                TimeRange::Last24Hours => 4 * DAY,
                TimeRange::Last7Days => 28 * DAY,
                _ => 120 * DAY,
            }),
{
    if let Some(t) = r {
        let now = choose|now: i64| #[trigger]
            clock_reads(now) && 0 <= now <= MAX_TIME && start_of(range, now as int) == Some(
                t as int,
            );
        assert(clock_reads(now));
    }
}

/// Where the clock reads one second only, a range that is asked for at the present is the range that
/// ends at that second.
pub proof fn a_range_is_read_off_at_one_second(
    range: TimeRange,
    r: Option<i64>,
    now: i64,
    at_now: Option<i64>,
)
    requires
        call_ensures(get_time_range_start, (range,), r),
        call_ensures(range_start, (range, now), at_now),
        forall|t: i64| #[trigger] clock_reads(t) ==> t == now,
    ensures
        r == at_now,
{
}

/// A longer range starts no later, and every range starts in the past.
pub proof fn longer_range_starts_earlier(a: TimeRange, b: TimeRange, now: int)
    requires
        span(a) matches Some(x) && span(b) matches Some(y) && x <= y,
    ensures
        start_of(b, now)->0 <= start_of(a, now)->0 < now,
{
}

/// The label of an axis mark: nothing where there is no such time, else its text in lower case.
pub open spec fn axis_label_of(text: Option<Seq<char>>) -> Seq<char> {
    match text {
        Some(t) => text::lowered(t),
        None => seq![],
    }
}

/// The label of an axis mark whose time was written as `formatted`.
pub fn axis_label(formatted: Option<String>) -> (r: String)
    ensures
        r@ == axis_label_of(crate::json::opt_text(formatted)),
{
    match formatted {
        Some(t) => text::to_lower(t.as_str()),
        None => String::new(),
    }
}

/// The name of an hour holds no capitals, so its label is that name.
pub proof fn hour_names_are_labels(hour: int)
    ensures
        axis_label_of(Some(hour_text(hour))) == hour_text(hour),
{
    reveal_strlit("am");
    reveal_strlit("pm");
    let number: int = if hour % 12 == 0 {
        12
    } else {
        hour % 12
    };
    text::lemma_decimal_is_lower(number as nat);
    assert(text::lowered(hour_text(hour)) =~= hour_text(hour));
}

/// The label of the axis mark at the second `secs`: its hour of the day, in UTC or on a clock less
/// than a day ahead or behind.
pub fn format_time_label(secs: i64, use_local: bool) -> (r: String)
    ensures
        !representable(secs as int) ==> r@ == Seq::<char>::empty(),
        representable(secs as int) && !use_local ==> r@ == hour_text(hour_of_day(secs as int)),
        representable(secs as int) && use_local ==> exists|offset: int|
            -86_400 < offset < 86_400 && r@ == hour_text(#[trigger] hour_of_day(secs + offset)),
        representable(secs as int) && use_local ==> exists|t: Seq<char>| #[trigger]
            written_locally(secs, AXIS_PATTERN@, t) && r@ == text::lowered(t),
{
    let formatted = if use_local {
        format_local(secs, AXIS_PATTERN)
    } else {
        format_utc(secs, AXIS_PATTERN)
    };
    proof {
        let offset = choose|offset: int|
            -86_400 < offset < 86_400 && #[trigger] written_at(
                formatted->0@,
                secs as int,
                offset,
                AXIS_PATTERN@,
            );
        hour_names_are_labels(hour_of_day(secs + offset));
        hour_names_are_labels(hour_of_day(secs as int));
        if use_local && formatted is Some {
            assert(call_ensures(format_local, (secs, AXIS_PATTERN), formatted));
            assert(written_locally(secs, AXIS_PATTERN@, formatted->0@));
        }
    }
    axis_label(formatted)
}

/// The hover label of a point: its time and its value, or the bare position where there is no such
/// time.
pub open spec fn hover_label_of(
    formatted: Option<Seq<char>>,
    x_text: Seq<char>,
    y_text: Seq<char>,
) -> Seq<char> {
    match formatted {
        Some(t) => t + "  |  y = "@ + y_text,
        None => "x = "@ + x_text,
    }
}

/// The hover label of a point whose time was written as `formatted`.
pub fn hover_label(formatted: Option<String>, x_text: &str, y_text: &str) -> (r: String)
    ensures
        r@ == hover_label_of(crate::json::opt_text(formatted), x_text@, y_text@),
{
    match formatted {
        Some(t) => text::join3(t.as_str(), "  |  y = ", y_text),
        None => text::join2("x = ", x_text),
    }
}

/// The hover label of the point at the second `secs`, whose coordinates are written `x_text` and
/// `y_text`. The time is that in UTC, or that on a clock less than a day ahead or behind.
pub fn format_plot_label(secs: i64, x_text: &str, y_text: &str, use_local: bool) -> (r: String)
    ensures
        !representable(secs as int) ==> r@ == hover_label_of(None, x_text@, y_text@),
        representable(secs as int) && !use_local ==> r@ == hover_label_of(
            Some(utc_text(secs, HOVER_PATTERN@)),
            x_text@,
            y_text@,
        ),
        representable(secs as int) && use_local ==> exists|offset: int, t: Seq<char>|
            -86_400 < offset < 86_400 && #[trigger] written_at(
                t,
                secs as int,
                offset,
                HOVER_PATTERN@,
            ) && r@ == hover_label_of(Some(t), x_text@, y_text@),
        representable(secs as int) && use_local ==> exists|t: Seq<char>| #[trigger]
            written_locally(secs, HOVER_PATTERN@, t) && r@ == hover_label_of(
                Some(t),
                x_text@,
                y_text@,
            ),
{
    if use_local {
        let formatted = format_local(secs, HOVER_PATTERN);
        proof {
            if formatted is Some {
                assert(call_ensures(format_local, (secs, HOVER_PATTERN), formatted));
                assert(written_locally(secs, HOVER_PATTERN@, formatted->0@));
            }
        }
        hover_label(formatted, x_text, y_text)
    } else {
        hover_label(format_utc(secs, HOVER_PATTERN), x_text, y_text)
    }
}

/// The second of a written time is that of the instant it names, without its fraction.
pub proof fn timestamp_is_the_second_of_the_instant(text: &str, r: Option<i64>)
    requires
        call_ensures(timestamp, (text,), r),
    ensures
        r is Some <==> rfc3339_instant(text@) is Some,
        r is Some ==> r->0 == (rfc3339_instant(text@)->0).0,
{
}

/// The label of an axis mark in UTC names the hour of the day that the second lies in, the same on
/// every day; a mark at no time has no label.
pub proof fn axis_label_names_the_hour(secs: i64, day: int, hour: int, rest: int, r: String)
    requires
        call_ensures(format_time_label, (secs, false), r),
        secs == 86_400 * day + 3600 * hour + rest,
        0 <= hour < 24,
        0 <= rest < 3600,
    ensures
        MIN_TIME <= secs <= MAX_TIME ==> r@ == text::decimal(
            (if hour == 0 || hour == 12 {
                12
            } else if hour < 12 {
                hour
            } else {
                hour - 12
            }) as nat,
        ) + if hour < 12 {
            "am"@
        } else {
            "pm"@
        },
        !(MIN_TIME <= secs <= MAX_TIME) ==> r@.len() == 0,
{
    assert(hour_of_day(secs as int) == hour);
}

/// A hover label tells the time of the point and its value, and the bare position where the point is
/// at no time. In UTC the time is that of the second itself.
pub proof fn hover_label_tells_time_and_value(
    secs: i64,
    x_text: &str,
    y_text: &str,
    r: String,
    local: String,
)
    requires
        call_ensures(format_plot_label, (secs, x_text, y_text, false), r),
        call_ensures(format_plot_label, (secs, x_text, y_text, true), local),
    ensures
        !(MIN_TIME <= secs <= MAX_TIME) ==> r@ == "x = "@ + x_text@ && local@ == r@,
        MIN_TIME <= secs <= MAX_TIME ==> r@ == utc_text(secs, HOVER_PATTERN@) + "  |  y = "@
            + y_text@,
        MIN_TIME <= secs - 86_400 && secs + 86_400 <= MAX_TIME ==> exists|offset: int|
            -86_400 < offset < 86_400 && local@ == #[trigger] utc_text(
                (secs + offset) as i64,
                HOVER_PATTERN@,
            ) + "  |  y = "@ + y_text@,
{
    if MIN_TIME <= secs - 86_400 && secs + 86_400 <= MAX_TIME {
        let (offset, t) = choose|offset: int, t: Seq<char>|
            -86_400 < offset < 86_400 && #[trigger] written_at(
                t,
                secs as int,
                offset,
                HOVER_PATTERN@,
            ) && local@ == hover_label_of(Some(t), x_text@, y_text@);
        assert(representable(secs + offset));
        assert(local@ == utc_text((secs + offset) as i64, HOVER_PATTERN@) + "  |  y = "@ + y_text@);
    }
}

/// In local time, too, the labels of a point are of the second that the point is at: what the machine
/// writes for that second, as the hour on the axis and as date and time at the point.
pub proof fn local_labels_are_of_their_second(
    secs: i64,
    x_text: &str,
    y_text: &str,
    axis: String,
    hover: String,
)
    requires
        MIN_TIME <= secs <= MAX_TIME,
        call_ensures(format_time_label, (secs, true), axis),
        call_ensures(format_plot_label, (secs, x_text, y_text, true), hover),
    ensures
        exists|t: Seq<char>| #[trigger] written_locally(secs, "%-I%P"@, t) && axis@ == t,
        exists|t: Seq<char>| #[trigger]
            written_locally(secs, "%b %d, %Y  %-I:%M %P"@, t) && hover@ == t + "  |  y = "@ + y_text@,
{
    let t = choose|t: Seq<char>| #[trigger]
        written_locally(secs, AXIS_PATTERN@, t) && axis@ == text::lowered(t);
    local_text_is_of_its_second(secs, AXIS_PATTERN@, t);
    let offset = choose|offset: int|
        -86_400 < offset < 86_400 && #[trigger] written_at(t, secs as int, offset, AXIS_PATTERN@);
    hour_names_are_labels(hour_of_day(secs + offset));
    assert(written_locally(secs, "%-I%P"@, t) && axis@ == t);
    let u = choose|t: Seq<char>| #[trigger]
        written_locally(secs, HOVER_PATTERN@, t) && hover@ == hover_label_of(
            Some(t),
            x_text@,
            y_text@,
        );
    assert(written_locally(secs, "%b %d, %Y  %-I:%M %P"@, u));
}

} // verus!
