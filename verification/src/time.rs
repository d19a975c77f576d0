//! Instants, calendar days and the countdown to a reset.
use crate::text::{self, decimal_text};
use chrono::{DateTime, Datelike, NaiveDate, TimeZone, Utc};
use vstd::prelude::*;

verus! {

/// The first second that a `chrono::DateTime<Utc>` can hold.
pub const MIN_SECS: i64 = -8_334_601_228_800;

/// The last second that a `chrono::DateTime<Utc>` can hold.
pub const MAX_SECS: i64 = 8_210_266_876_799;

/// The number of the first day of a `chrono::NaiveDate`.
pub const MIN_DAY: i32 = -95_746_129;

/// The number of the last day of a `chrono::NaiveDate`.
pub const MAX_DAY: i32 = 95_745_399;

/// The number of the day of the Unix epoch, where January 1 of the year 1 is day 1.
pub const EPOCH_DAY: i64 = 719_163;

/// An instant in UTC: whole seconds since the Unix epoch and nanoseconds on top of them. Nanoseconds
/// of a thousand million and more mark a leap second.
#[derive(Clone, Copy, Debug, PartialEq, Eq, Structural)]
pub struct Timestamp {
    pub secs: i64,
    pub nanos: u32,
}

impl Timestamp {
    /// The instants that `chrono` can represent.
    pub open spec fn valid(self) -> bool {
        &&& MIN_SECS <= self.secs <= MAX_SECS
        &&& self.nanos < 2_000_000_000
        &&& self.nanos >= 1_000_000_000 ==> self.secs as int % 60 == 59
    }

    /// The instants that a clock may show: none before the Unix epoch, and no leap second.
    pub open spec fn on_clock(self) -> bool {
        &&& self.valid()
        &&& self.secs >= 0
        &&& self.nanos < 1_000_000_000
    }

    /// The second of the day.
    pub open spec fn second_of_day(self) -> int {
        self.secs as int % 86_400
    }

    /// The number of the day, where January 1 of the year 1 is day 1.
    pub open spec fn day_number(self) -> int {
        self.secs as int / 86_400 + EPOCH_DAY
    }

    /// The number of the day, where January 1 of the year 1 is day 1.
    pub fn day(&self) -> (r: i32)
        requires
            self.valid(),
        ensures
            r == self.day_number(),
            MIN_DAY <= r <= MAX_DAY,
    {
        let shifted: i64 = self.secs - MIN_SECS;
        let days: i64 = shifted / 86_400;
        (days + (MIN_SECS / 86_400 + EPOCH_DAY)) as i32
    }
}

/// `TimeZone::timestamp_opt` of `chrono::Utc`: the instant with the given seconds and nanoseconds,
/// and none where `chrono` cannot represent it.
#[verifier::external_body]
pub(crate) fn timestamp_opt(secs: i64, nanos: u32) -> (r: Option<Timestamp>)
    ensures
        r == (if (Timestamp { secs, nanos }).valid() {
            Some(Timestamp { secs, nanos })
        } else {
            None
        }),
{
    let instant = Utc.timestamp_opt(secs, nanos).single()?;
    Some(Timestamp { secs: instant.timestamp(), nanos: instant.timestamp_subsec_nanos() })
}

/// `Utc::now`: an instant that is not before the Unix epoch and no leap second. Which one it is
/// rests on the clock.
#[verifier::external_body]
pub(crate) fn utc_now() -> (r: Timestamp)
    ensures
        r.on_clock(),
{
    let instant = Utc::now();
    Timestamp { secs: instant.timestamp(), nanos: instant.timestamp_subsec_nanos() }
}

/// The instant, in seconds and nanoseconds, that `DateTime::parse_from_rfc3339` reads from a text.
pub uninterp spec fn rfc3339_instant(text: Seq<char>) -> Option<Timestamp>;

/// `DateTime::parse_from_rfc3339`: the instant that the text names, by `rfc3339_instant`; it is one
/// that `chrono` can represent.
#[verifier::external_body]
fn parse_rfc3339(input: &str) -> (r: Option<Timestamp>)
    ensures
        r == rfc3339_instant(input@),
        r is Some ==> r->0.valid(),
{
    let instant = DateTime::parse_from_rfc3339(input).ok()?.with_timezone(&Utc);
    Some(Timestamp { secs: instant.timestamp(), nanos: instant.timestamp_subsec_nanos() })
}

/// The instant that an RFC 3339 text names.
pub fn parse_datetime(input: &str) -> (r: Option<Timestamp>)
    ensures
        r == rfc3339_instant(input@),
        r is Some ==> r->0.valid(),
{
    parse_rfc3339(input)
}

/// `a / b` rounded toward zero.
pub open spec fn truncated(a: int, b: int) -> int
    recommends
        b > 0,
{
    if a >= 0 {
        a / b
    } else {
        -((-a) / b)
    }
}

/// A leap second between the times of day of two instants lengthens their distance by a second.
pub open spec fn leap_between(later: Timestamp, earlier: Timestamp) -> int {
    if later.second_of_day() > earlier.second_of_day() && earlier.nanos >= 1_000_000_000 {
        1
    } else if later.second_of_day() < earlier.second_of_day() && later.nanos >= 1_000_000_000 {
        -1
    } else {
        0
    }
}

/// The whole seconds from `earlier` to `later`, rounded toward zero.
pub open spec fn seconds_between(later: Timestamp, earlier: Timestamp) -> int {
    truncated(
        (later.secs - earlier.secs + leap_between(later, earlier)) * 1_000_000_000 + (later.nanos
            - earlier.nanos),
        1_000_000_000,
    )
}

/// The difference of two `chrono::DateTime<Utc>` by `-`, and of that `TimeDelta::num_seconds`.
#[verifier::external_body]
fn whole_seconds(later: Timestamp, earlier: Timestamp) -> (r: i64)
    requires
        later.valid(),
        earlier.valid(),
    ensures
        r == seconds_between(later, earlier),
{
    let later = Utc.timestamp_opt(later.secs, later.nanos).unwrap();
    let earlier = Utc.timestamp_opt(earlier.secs, earlier.nanos).unwrap();
    (later - earlier).num_seconds()
}

/// The countdown over a number of seconds: days and hours, hours and minutes, or minutes; `now`
/// where less than a minute is left.
pub open spec fn countdown(secs: int) -> Seq<char> {
    let minutes = secs / 60;
    let hours = minutes / 60;
    if secs < 60 {
        "now"@
    } else if hours >= 24 && hours % 24 == 0 {
        text::decimal((hours / 24) as nat).push('d')
    } else if hours >= 24 {
        text::decimal((hours / 24) as nat) + seq!['d', ' '] + text::decimal(
            (hours % 24) as nat,
        ).push('h')
    } else if hours > 0 {
        text::decimal(hours as nat) + seq!['h', ' '] + text::decimal((minutes % 60) as nat).push('m')
    } else {
        text::decimal((minutes % 60) as nat).push('m')
    }
}

/// The countdown over a number of seconds.
pub fn format_countdown(secs: i64) -> (r: String)
    ensures
        r@ == countdown(secs as int),
{
    if secs < 60 {
        return "now".to_owned();
    }
    let minutes: u64 = secs as u64 / 60;
    let hours: u64 = minutes / 60;
    if hours >= 24 {
        let days: u64 = hours / 24;
        let rest: u64 = hours % 24;
        let mut out = decimal_text(days);
        out.push('d');
        if rest == 0 {
            out
        } else {
            out.push(' ');
            out.append(decimal_text(rest).as_str());
            out.push('h');
            assert(out@ =~= countdown(secs as int));
            out
        }
    } else if hours > 0 {
        let mut out = decimal_text(hours);
        out.push('h');
        out.push(' ');
        out.append(decimal_text(minutes % 60).as_str());
        out.push('m');
        assert(out@ =~= countdown(secs as int));
        out
    } else {
        let mut out = decimal_text(minutes % 60);
        out.push('m');
        out
    }
}

/// The countdown from `now` to a reset.
pub fn format_reset_countdown_at(reset_at: Timestamp, now: Timestamp) -> (r: String)
    requires
        reset_at.valid(),
        now.valid(),
    ensures
        r@ == countdown(seconds_between(reset_at, now)),
{
    format_countdown(whole_seconds(reset_at, now))
}

/// The countdown from the present to a reset.
pub fn format_reset_countdown(reset_at: Timestamp) -> (r: String)
    requires
        reset_at.valid(),
    ensures
        exists|now: Timestamp|
            now.on_clock() && r@ == #[trigger] countdown(seconds_between(reset_at, now)),
{
    let now = utc_now();
    format_reset_countdown_at(reset_at, now)
}

/// Law: a countdown says `now` exactly where less than a minute is left.
pub proof fn law_now_in_the_last_minute(secs: int)
    ensures
        countdown(secs) == "now"@ <==> secs < 60,
{
    reveal_strlit("now");
    assert("now"@.last() == 'w');
    if secs >= 60 {
        assert(countdown(secs).last() != 'w');
    }
}

/// A day of the proleptic Gregorian calendar.
#[derive(Clone, Copy, Debug, PartialEq, Eq, Structural)]
pub struct Date {
    pub year: i32,
    pub month: u32,
    pub day: u32,
}

pub open spec fn leap_year(year: int) -> bool {
    year % 4 == 0 && (year % 100 != 0 || year % 400 == 0)
}

/// The number of days of a month.
pub open spec fn month_length(year: int, month: int) -> int {
    if month == 2 {
        if leap_year(year) {
            29
        } else {
            28
        }
    } else if month == 4 || month == 6 || month == 9 || month == 11 {
        30
    } else {
        31
    }
}

/// The number of days of the year before a month.
pub open spec fn days_before_month(year: int, month: int) -> int
    decreases month,
{
    if month <= 1 {
        0
    } else {
        days_before_month(year, month - 1) + month_length(year, month - 1)
    }
}

/// The number of days from January 1 of the year 1 to January 1 of `year`.
pub open spec fn days_before_year(year: int) -> int {
    365 * (year - 1) + (year - 1) / 4 - (year - 1) / 100 + (year - 1) / 400
}

impl Date {
    pub open spec fn valid(self) -> bool {
        &&& 1 <= self.month <= 12
        &&& 1 <= self.day <= month_length(self.year as int, self.month as int)
        &&& MIN_DAY <= self.number() <= MAX_DAY
    }

    /// The number of the day, where January 1 of the year 1 is day 1.
    pub open spec fn number(self) -> int {
        days_before_year(self.year as int) + days_before_month(self.year as int, self.month as int)
            + self.day
    }

    /// The year in at least four digits, with a sign outside the years 0 to 9999.
    pub open spec fn year_text(self) -> Seq<char> {
        let digits = text::zero_padded(
            text::decimal((if self.year < 0 { -self.year } else { self.year as int }) as nat),
            4,
        );
        if 0 <= self.year <= 9999 {
            digits
        } else if self.year < 0 {
            seq!['-'] + digits
        } else {
            seq!['+'] + digits
        }
    }

    /// The date as year, month and day with dashes between them.
    pub open spec fn iso_text(self) -> Seq<char> {
        (self.year_text().push('-') + two_digits(self.month)).push('-') + two_digits(self.day)
    }
}

/// A number in at least two digits.
pub open spec fn two_digits(n: u32) -> Seq<char> {
    text::zero_padded(text::decimal(n as nat), 2)
}

/// The date of a day number.
pub open spec fn date_of(number: int) -> Date {
    choose|date: Date| date.valid() && date.number() == number
}

/// The days before a month fit the year and grow from month to month.
proof fn lemma_months(year: int, month: int)
    requires
        1 <= month <= 12,
    ensures
        0 <= days_before_month(year, month),
        days_before_month(year, month) + month_length(year, month) <= (if leap_year(year) {
            366int
        } else {
            365
        }),
        forall|later: int|
            month < later <= 12 ==> days_before_month(year, month) + month_length(year, month)
                <= #[trigger] days_before_month(year, later),
{
    reveal_with_fuel(days_before_month, 13);
}

/// A day has one date.
pub proof fn lemma_date_unique(a: Date, b: Date)
    requires
        a.valid(),
        b.valid(),
        a.number() == b.number(),
    ensures
        a == b,
{
    lemma_months(a.year as int, a.month as int);
    lemma_months(b.year as int, b.month as int);
    if a.year < b.year {
        assert(days_before_year(a.year + 1) <= days_before_year(b.year as int));
    } else if b.year < a.year {
        assert(days_before_year(b.year + 1) <= days_before_year(a.year as int));
    }
}

/// `NaiveDate::from_num_days_from_ce_opt`, and of that `Datelike::year`, `Datelike::month` and
/// `Datelike::day`: the date of a day number.
#[verifier::external_body]
fn calendar_date(number: i32) -> (r: Date)
    requires
        MIN_DAY <= number <= MAX_DAY,
    ensures
        r.valid(),
        r.number() == number,
{
    let date = NaiveDate::from_num_days_from_ce_opt(number).unwrap();
    Date { year: date.year(), month: date.month(), day: date.day() }
}

/// The date of a day number.
pub fn date_from_number(number: i32) -> (r: Date)
    requires
        MIN_DAY <= number <= MAX_DAY,
    ensures
        r.valid(),
        r.number() == number,
        r == date_of(number as int),
{
    let date = calendar_date(number);
    proof {
        lemma_date_unique(date, date_of(number as int));
    }
    date
}

/// `NaiveDate::format` with the pattern `%Y-%m-%d`.
#[verifier::external_body]
fn format_date(date: Date, pattern: &str) -> (r: String)
    requires
        date.valid(),
        pattern@ == "%Y-%m-%d"@,
    ensures
        r@ == date.iso_text(),
{
    NaiveDate::from_ymd_opt(date.year, date.month, date.day).unwrap().format(pattern).to_string()
}

/// The text of a date, as in `2026-06-16`.
pub fn date_text(date: Date) -> (r: String)
    requires
        date.valid(),
    ensures
        r@ == date.iso_text(),
{
    format_date(date, "%Y-%m-%d")
}

/// Every day number in range has a date.
pub proof fn lemma_date_exists(number: int)
    requires
        MIN_DAY <= number <= MAX_DAY,
    ensures
        date_of(number).valid(),
        date_of(number).number() == number,
{
    let year = lemma_year_of(number);
    let day = number - days_before_year(year);
    let month = lemma_month_of(year, day);
    let date = Date {
        year: year as i32,
        month: month as u32,
        day: (day - days_before_month(year, month)) as u32,
    };
    assert(date.valid() && date.number() == number);
}

/// The year that holds a day.
proof fn lemma_year_of(number: int) -> (year: int)
    requires
        MIN_DAY <= number <= MAX_DAY,
    ensures
        days_before_year(year) < number <= days_before_year(year + 1),
        -300_000 < year < 300_000,
{
    lemma_year_below(number, 299_999)
}

/// The year that holds a day, searched downward.
proof fn lemma_year_below(number: int, from: int) -> (year: int)
    requires
        MIN_DAY <= number <= MAX_DAY,
        -300_000 < from < 300_000,
        number <= days_before_year(from + 1),
    ensures
        days_before_year(year) < number <= days_before_year(year + 1),
        -300_000 < year < 300_000,
    decreases from + 300_000,
{
    if days_before_year(from) < number {
        from
    } else {
        lemma_year_below(number, from - 1)
    }
}

/// The month that holds a day of a year.
proof fn lemma_month_of(year: int, day: int) -> (month: int)
    requires
        1 <= day <= (if leap_year(year) {
            366int
        } else {
            365
        }),
    ensures
        1 <= month <= 12,
        1 <= day - days_before_month(year, month) <= month_length(year, month),
{
    reveal_with_fuel(days_before_month, 13);
    if day <= days_before_month(year, 2) {
        1
    } else if day <= days_before_month(year, 3) {
        2
    } else if day <= days_before_month(year, 4) {
        3
    } else if day <= days_before_month(year, 5) {
        4
    } else if day <= days_before_month(year, 6) {
        5
    } else if day <= days_before_month(year, 7) {
        6
    } else if day <= days_before_month(year, 8) {
        7
    } else if day <= days_before_month(year, 9) {
        8
    } else if day <= days_before_month(year, 10) {
        9
    } else if day <= days_before_month(year, 11) {
        10
    } else if day <= days_before_month(year, 12) {
        11
    } else {
        12
    }
}

/// Two dates with the same text are the same.
pub proof fn lemma_iso_text_unique(a: Date, b: Date)
    requires
        a.valid(),
        b.valid(),
        a.iso_text() == b.iso_text(),
    ensures
        a == b,
{
    lemma_two_digits(a.month);
    lemma_two_digits(a.day);
    lemma_two_digits(b.month);
    lemma_two_digits(b.day);
    let s = a.iso_text();
    let y = a.year_text().len() as int;
    assert(a.iso_text().len() == y + 6);
    assert(b.iso_text().len() == b.year_text().len() + 6);
    assert(a.year_text() =~= s.take(y));
    assert(b.year_text() =~= s.take(y));
    assert(two_digits(a.month) =~= s.subrange(y + 1, y + 3));
    assert(two_digits(b.month) =~= s.subrange(y + 1, y + 3));
    assert(two_digits(a.day) =~= s.subrange(y + 4, y + 6));
    assert(two_digits(b.day) =~= s.subrange(y + 4, y + 6));
    text::lemma_padded_unique(a.month as nat, b.month as nat, 2);
    text::lemma_padded_unique(a.day as nat, b.day as nat, 2);
    lemma_year_text_unique(a, b);
}

proof fn lemma_two_digits(n: u32)
    requires
        n < 100,
    ensures
        two_digits(n).len() == 2,
{
    reveal_with_fuel(text::decimal, 3);
}

proof fn lemma_year_text_unique(a: Date, b: Date)
    requires
        a.year_text() == b.year_text(),
    ensures
        a.year == b.year,
{
    let na = (if a.year < 0 { -a.year } else { a.year as int }) as nat;
    let nb = (if b.year < 0 { -b.year } else { b.year as int }) as nat;
    let da = text::zero_padded(text::decimal(na), 4);
    let db = text::zero_padded(text::decimal(nb), 4);
    text::lemma_padded_digits(na, 4);
    text::lemma_padded_digits(nb, 4);
    assert(da[0] != '-' && da[0] != '+');
    assert(db[0] != '-' && db[0] != '+');
    assert((seq!['-'] + da)[0] == '-');
    assert((seq!['+'] + da)[0] == '+');
    assert((seq!['-'] + db)[0] == '-');
    assert((seq!['+'] + db)[0] == '+');
    assert((seq!['-'] + da).drop_first() =~= da);
    assert((seq!['+'] + da).drop_first() =~= da);
    assert((seq!['-'] + db).drop_first() =~= db);
    assert((seq!['+'] + db).drop_first() =~= db);
    assert(da == db);
    text::lemma_padded_unique(na, nb, 4);
}

/// Law: a countdown over days, hours, minutes and seconds shows the days, with the hours where there
/// are any; within a day the hours and minutes; within an hour the minutes; and `now` within a minute.
pub proof fn law_countdown_parts(days: int, hours: int, minutes: int, seconds: int)
    requires
        days >= 0,
        0 <= hours < 24,
        0 <= minutes < 60,
        0 <= seconds < 60,
    ensures
        ({
            let shown = countdown(((days * 24 + hours) * 60 + minutes) * 60 + seconds);
            &&& days > 0 && hours == 0 ==> shown == text::decimal(days as nat) + seq!['d']
            &&& days > 0 && hours > 0 ==> shown == text::decimal(days as nat) + seq!['d', ' ']
                + text::decimal(hours as nat) + seq!['h']
            &&& days == 0 && hours > 0 ==> shown == text::decimal(hours as nat) + seq!['h', ' ']
                + text::decimal(minutes as nat) + seq!['m']
            &&& days == 0 && hours == 0 && minutes > 0 ==> shown == text::decimal(minutes as nat)
                + seq!['m']
            &&& days == 0 && hours == 0 && minutes == 0 ==> shown == "now"@
        }),
{
    let secs = ((days * 24 + hours) * 60 + minutes) * 60 + seconds;
    assert(secs / 60 == (days * 24 + hours) * 60 + minutes);
    assert(secs / 60 / 60 == days * 24 + hours);
    assert((days * 24 + hours) / 24 == days);
    assert((days * 24 + hours) % 24 == hours);
    assert((secs / 60) % 60 == minutes);
    let shown = countdown(secs);
    if days > 0 && hours == 0 {
        assert(shown =~= text::decimal(days as nat) + seq!['d']);
    } else if days > 0 {
        assert(shown =~= text::decimal(days as nat) + seq!['d', ' '] + text::decimal(hours as nat)
            + seq!['h']);
    } else if hours > 0 {
        assert(shown =~= text::decimal(hours as nat) + seq!['h', ' '] + text::decimal(
            minutes as nat,
        ) + seq!['m']);
    } else if minutes > 0 {
        assert(shown =~= text::decimal(minutes as nat) + seq!['m']);
    }
}

/// Law: between two instants that are no leap seconds lie the whole seconds of their distance, to
/// whichever side.
pub proof fn law_seconds_between(a: Timestamp, b: Timestamp)
    requires
        a.nanos < 1_000_000_000,
        b.nanos < 1_000_000_000,
    ensures
        ({
            let nanos = (a.secs - b.secs) * 1_000_000_000 + (a.nanos - b.nanos);
            let n = seconds_between(a, b);
            &&& nanos >= 0 ==> n * 1_000_000_000 <= nanos < (n + 1) * 1_000_000_000
            &&& seconds_between(b, a) == -n
        }),
{
}

/// Law: an instant lies in the day whose number it has.
pub proof fn law_instant_in_its_day(t: Timestamp)
    ensures
        (t.day_number() - 719_163) * 86_400 <= t.secs < (t.day_number() - 719_163 + 1) * 86_400,
{
}

} // verus!
