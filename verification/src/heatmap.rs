//! The heatmap of tokens by day.
use crate::heat::{self, heat_intensity};
use crate::sessions::{self, Tally};
use crate::text::{self, decimal_text, equal_ignoring_case, strip, zero_pad, CharClass};
use crate::time::{self, date_from_number, date_text, Date, Timestamp, MAX_DAY, MIN_DAY};
use vstd::prelude::*;

verus! {

/// The days of a heatmap where none are asked for.
pub const DEFAULT_HEATMAP_DAYS: u32 = 210;

/// The most days of a heatmap.
pub const MAX_HEATMAP_DAYS: u32 = 366;

/// One day of the heatmap.
#[derive(Debug)]
pub struct HeatmapDay {
    pub date: String,
    pub value: u64,
    pub intensity: u8,
}

pub struct DayView {
    pub date: Seq<char>,
    pub value: u64,
    pub intensity: u8,
}

impl View for HeatmapDay {
    type V = DayView;

    open spec fn view(&self) -> DayView {
        DayView { date: self.date@, value: self.value, intensity: self.intensity }
    }
}

/// The contents of a list of days.
pub open spec fn day_views(v: Seq<HeatmapDay>) -> Seq<DayView> {
    v.map_values(|d: HeatmapDay| d@)
}

/// The number of days that a heatmap covers.
pub open spec fn day_count(days: Option<u32>) -> u32 {
    match days {
        Some(n) => if n < 1 {
            1
        } else if n > MAX_HEATMAP_DAYS {
            MAX_HEATMAP_DAYS
        } else {
            n
        },
        None => DEFAULT_HEATMAP_DAYS,
    }
}

/// The number of days that a heatmap covers.
pub fn heatmap_days(days: Option<u32>) -> (r: u32)
    ensures
        r == day_count(days),
        1 <= r <= MAX_HEATMAP_DAYS,
{
    match days {
        Some(n) => {
            if n < 1 {
                1
            } else if n > MAX_HEATMAP_DAYS {
                MAX_HEATMAP_DAYS
            } else {
                n
            }
        },
        None => DEFAULT_HEATMAP_DAYS,
    }
}

/// The days of a heatmap, by their numbers, from the first to the last.
#[derive(Clone, Copy, Debug, PartialEq, Eq, Structural)]
pub struct DayRange {
    pub start: i32,
    pub today: i32,
}

impl DayRange {
    pub open spec fn valid(self) -> bool {
        MIN_DAY <= self.start <= MAX_DAY && MIN_DAY <= self.today <= MAX_DAY
    }

    /// The number of days; none where the last comes before the first.
    pub open spec fn len(self) -> nat {
        if self.start <= self.today {
            (self.today - self.start + 1) as nat
        } else {
            0
        }
    }
}

/// The last `days` days up to that of `now`.
pub fn day_range_at(now: Timestamp, days: u32) -> (r: DayRange)
    requires
        now.valid(),
        days >= 1,
        now.day_number() - (days - 1) >= MIN_DAY,
    ensures
        r.valid(),
        r.today == now.day_number(),
        r.len() == days,
{
    let today = now.day();
    DayRange { start: (today as i64 - (days as i64 - 1)) as i32, today }
}

/// The last `days` days up to the present one.
pub fn day_range(days: u32) -> (r: DayRange)
    requires
        1 <= days <= 96_465_293,
    ensures
        r.valid(),
        r.len() == days,
        exists|now: Timestamp| now.on_clock() && r.today == #[trigger] now.day_number(),
{
    let now = time::utc_now();
    day_range_at(now, days)
}

/// The text of a day.
pub open spec fn day_text(number: int) -> Seq<char> {
    time::date_of(number).iso_text()
}

/// The entry of a day: its date, its count, and the share of the greatest count that it is.
pub open spec fn day_entry(tally: Map<Seq<char>, u64>, number: int) -> DayView {
    let value = sessions::count_of(tally, day_text(number));
    DayView {
        date: day_text(number),
        value,
        intensity: heat::intensity(value as nat, sessions::peak(tally) as nat) as u8,
    }
}

/// The heatmap of a range of days.
pub open spec fn heatmap(range: DayRange, tally: Map<Seq<char>, u64>) -> Seq<DayView> {
    Seq::new(range.len(), |i: int| day_entry(tally, range.start + i))
}

/// Builds the heatmap of a range of days.
pub fn build_heatmap(range: DayRange, values: &Tally) -> (r: Vec<HeatmapDay>)
    requires
        range.valid(),
    ensures
        day_views(r@) == heatmap(range, values@),
{
    let max = values.max();
    let mut out: Vec<HeatmapDay> = Vec::new();
    let mut number: i32 = range.start;
    while number <= range.today
        invariant
            range.valid(),
            range.start <= number,
            number == range.start || number <= range.today + 1,
            max == sessions::peak(values@),
            out@.len() == number - range.start,
            forall|i: int|
                0 <= i < out@.len() ==> (#[trigger] out@[i])@ == day_entry(
                    values@,
                    range.start + i,
                ),
        decreases range.today + 1 - number,
    {
        let key = date_text(date_from_number(number));
        let value = values.get(key.as_str());
        out.push(HeatmapDay { date: key, value, intensity: heat_intensity(value, max) });
        number += 1;
    }
    assert(day_views(out@) =~= heatmap(range, values@));
    out
}

/// The directories, one in the other, that hold the session logs of a day.
#[derive(Debug)]
pub struct SessionDir {
    pub year: String,
    pub month: String,
    pub day: String,
}

pub struct SessionDirView {
    pub year: Seq<char>,
    pub month: Seq<char>,
    pub day: Seq<char>,
}

impl View for SessionDir {
    type V = SessionDirView;

    open spec fn view(&self) -> SessionDirView {
        SessionDirView { year: self.year@, month: self.month@, day: self.day@ }
    }
}

/// The name of the directory of a year: four characters at least, the sign among them.
pub open spec fn year_dir(year: int) -> Seq<char> {
    if year < 0 {
        seq!['-'] + text::zero_padded(text::decimal((-year) as nat), 3)
    } else {
        text::zero_padded(text::decimal(year as nat), 4)
    }
}

/// The directories of a date.
pub open spec fn dir_of(date: Date) -> SessionDirView {
    SessionDirView {
        year: year_dir(date.year as int),
        month: time::two_digits(date.month),
        day: time::two_digits(date.day),
    }
}

/// The directories of a date.
pub fn session_dir(date: Date) -> (r: SessionDir)
    ensures
        r@ == dir_of(date),
{
    let year = if date.year < 0 {
        let mut out = "-".to_owned();
        out.append(zero_pad(decimal_text((-(date.year as i64)) as u64).as_str(), 3).as_str());
        proof {
            reveal_strlit("-");
            assert("-"@ =~= seq!['-']);
        }
        out
    } else {
        zero_pad(decimal_text(date.year as u64).as_str(), 4)
    };
    SessionDir {
        year,
        month: zero_pad(decimal_text(date.month as u64).as_str(), 2),
        day: zero_pad(decimal_text(date.day as u64).as_str(), 2),
    }
}

/// The contents of a list of directories.
pub open spec fn dir_views(v: Seq<SessionDir>) -> Seq<SessionDirView> {
    v.map_values(|d: SessionDir| d@)
}

/// The directories of each day of a range, in order.
pub open spec fn dirs(range: DayRange) -> Seq<SessionDirView> {
    Seq::new(range.len(), |i: int| dir_of(time::date_of(range.start + i)))
}

/// The directories of each day of a range, in order.
pub fn session_dirs(range: DayRange) -> (r: Vec<SessionDir>)
    requires
        range.valid(),
    ensures
        dir_views(r@) == dirs(range),
{
    let mut out: Vec<SessionDir> = Vec::new();
    let mut number: i32 = range.start;
    while number <= range.today
        invariant
            range.valid(),
            range.start <= number,
            number == range.start || number <= range.today + 1,
            out@.len() == number - range.start,
            forall|i: int|
                0 <= i < out@.len() ==> (#[trigger] out@[i])@ == dir_of(
                    time::date_of(range.start + i),
                ),
        decreases range.today + 1 - number,
    {
        out.push(session_dir(date_from_number(number)));
        number += 1;
    }
    assert(dir_views(out@) =~= dirs(range));
    out
}

/// Whether a file with the extension is a session log: `jsonl` in any case.
pub open spec fn session_log(extension: Seq<char>) -> bool {
    text::ascii_lowered(extension) == text::ascii_lowered("jsonl"@)
}

/// Whether a file with the extension is a session log.
pub fn is_session_log(extension: Option<&str>) -> (r: bool)
    ensures
        r == (extension is Some && session_log(extension->0@)),
{
    match extension {
        Some(ext) => equal_ignoring_case(ext, "jsonl"),
        None => false,
    }
}

/// Where the directory of the sessions lies.
#[derive(Debug)]
pub enum SessionsRoot {
    /// Below the given directory.
    CodexHome(String),
    /// Below `.codex` in the home directory of the user.
    UserHome,
}

/// The directory that the setting `CODEX_HOME` names; none where it is not set or blank.
pub open spec fn codex_home(setting: Option<Seq<char>>) -> Option<Seq<char>> {
    match setting {
        Some(s) if text::stripped(s, CharClass::WhiteSpace).len() > 0 => Some(
            text::stripped(s, CharClass::WhiteSpace),
        ),
        _ => None,
    }
}

/// Decides where the sessions lie, by the setting `CODEX_HOME`.
pub fn codex_sessions_root(setting: Option<String>) -> (r: SessionsRoot)
    ensures
        match r {
            SessionsRoot::CodexHome(dir) => codex_home(text::opt_view(setting)) == Some(dir@),
            SessionsRoot::UserHome => codex_home(text::opt_view(setting)) is None,
        },
{
    match setting {
        Some(s) => {
            let dir = strip(s.as_str(), CharClass::WhiteSpace);
            if dir.as_str().is_empty() {
                SessionsRoot::UserHome
            } else {
                SessionsRoot::CodexHome(dir)
            }
        },
        None => SessionsRoot::UserHome,
    }
}

/// Law: a day of the heatmap has no colour exactly where it counts no token, and the strongest
/// where it counts as many as any day.
pub proof fn law_colours(range: DayRange, values: Tally, i: int)
    requires
        range.valid(),
        0 <= i < range.len(),
    ensures
        ({
            let entry = heatmap(range, values@)[i];
            &&& entry.intensity == 0 <==> entry.value == 0
            &&& entry.value > 0 && entry.value == sessions::peak(values@) ==> entry.intensity == 4
            &&& entry.intensity <= 4
        }),
{
    let tally = values@;
    let value = heatmap(range, tally)[i].value;
    let max = sessions::peak(tally);
    sessions::lemma_tally_finite(values);
    sessions::lemma_peak_exists(tally);
    heat::law_blank_iff_zero(value as nat, max as nat);
    if value > 0 {
        assert(tally.contains_key(day_text(range.start + i)));
        if value == max {
            heat::law_maximum_is_strongest(max as nat);
        }
    }
}

/// Law: no two days of a heatmap have the same date.
pub proof fn law_dates_differ(range: DayRange, tally: Map<Seq<char>, u64>, i: int, j: int)
    requires
        range.valid(),
        0 <= i < j < range.len(),
    ensures
        heatmap(range, tally)[i].date != heatmap(range, tally)[j].date,
{
    let a = time::date_of(range.start + i);
    let b = time::date_of(range.start + j);
    time::lemma_date_exists(range.start + i);
    time::lemma_date_exists(range.start + j);
    if a.iso_text() == b.iso_text() {
        time::lemma_iso_text_unique(a, b);
    }
}

impl Clone for HeatmapDay {
    fn clone(&self) -> (r: Self)
        ensures
            r@ == self@,
    {
        HeatmapDay { date: self.date.clone(), value: self.value, intensity: self.intensity }
    }
}

pub(crate) fn copy_days(days: &Vec<HeatmapDay>) -> (r: Vec<HeatmapDay>)
    ensures
        day_views(r@) == day_views(days@),
{
    let mut out: Vec<HeatmapDay> = Vec::new();
    let mut i: usize = 0;
    while i < days.len()
        invariant
            i <= days.len(),
            out@.len() == i,
            forall|k: int| 0 <= k < i ==> (#[trigger] out@[k])@ == days@[k]@,
        decreases days.len() - i,
    {
        out.push(days[i].clone());
        i += 1;
    }
    assert(day_views(out@) =~= day_views(days@));
    out
}

/// Law: no two days have the same directories.
pub proof fn law_dirs_differ(range: DayRange, i: int, j: int)
    requires
        range.valid(),
        0 <= i < j < range.len(),
    ensures
        dirs(range)[i] != dirs(range)[j],
{
    let a = time::date_of(range.start + i);
    let b = time::date_of(range.start + j);
    time::lemma_date_exists(range.start + i);
    time::lemma_date_exists(range.start + j);
    if dir_of(a) == dir_of(b) {
        text::lemma_padded_unique(a.month as nat, b.month as nat, 2);
        text::lemma_padded_unique(a.day as nat, b.day as nat, 2);
        lemma_year_dir_unique(a.year as int, b.year as int);
    }
}

proof fn lemma_year_dir_unique(a: int, b: int)
    requires
        year_dir(a) == year_dir(b),
    ensures
        a == b,
{
    if a < 0 && b < 0 {
        let da = text::zero_padded(text::decimal((-a) as nat), 3);
        let db = text::zero_padded(text::decimal((-b) as nat), 3);
        assert((seq!['-'] + da).drop_first() =~= da);
        assert((seq!['-'] + db).drop_first() =~= db);
        text::lemma_padded_unique((-a) as nat, (-b) as nat, 3);
    } else if a >= 0 && b >= 0 {
        text::lemma_padded_unique(a as nat, b as nat, 4);
    } else {
        let positive = (if a >= 0 { a } else { b }) as nat;
        text::lemma_padded_digits(positive, 4);
        assert('0' <= text::zero_padded(text::decimal(positive), 4)[0]);
        assert(year_dir(a)[0] == year_dir(b)[0]);
    }
}

/// Law: the heatmap has one entry for each day of the range, in order, with the day's own date and
/// the tokens that the tally counts on that date.
pub proof fn law_entries_follow_tally(range: DayRange, tally: Map<Seq<char>, u64>, i: int)
    requires
        range.valid(),
        0 <= i <= range.today - range.start,
    ensures
        heatmap(range, tally).len() == range.today - range.start + 1,
        ({
            let entry = heatmap(range, tally)[i];
            let date = time::date_of(range.start + i);
            &&& date.valid() && date.number() == range.start + i
            &&& entry.date == date.iso_text()
            &&& tally.contains_key(entry.date) ==> entry.value == tally[entry.date]
            &&& !tally.contains_key(entry.date) ==> entry.value == 0
        }),
{
    time::lemma_date_exists(range.start + i);
}

/// Law: of two days the one with more tokens has no weaker colour, and tokens on a day outside the
/// heatmap that do not exceed the greatest count change no colour.
pub proof fn law_colours_follow_counts(
    range: DayRange,
    tally: Map<Seq<char>, u64>,
    other: Map<Seq<char>, u64>,
    i: int,
    j: int,
)
    requires
        range.valid(),
        0 <= i < range.len(),
        0 <= j < range.len(),
    ensures
        heatmap(range, tally)[i].value <= heatmap(range, tally)[j].value ==> heatmap(
            range,
            tally,
        )[i].intensity <= heatmap(range, tally)[j].intensity,
        sessions::peak(tally) == sessions::peak(other) && heatmap(range, tally)[i].value
            == heatmap(range, other)[i].value ==> heatmap(range, tally)[i] == heatmap(
            range,
            other,
        )[i],
{
    let a = heatmap(range, tally)[i].value as nat;
    let b = heatmap(range, tally)[j].value as nat;
    let max = sessions::peak(tally) as nat;
    heat::law_blank_iff_zero(a, max);
    heat::law_blank_iff_zero(b, max);
    if a <= b {
        heat::law_monotone(a, b, max);
    }
}

/// Law: below 2^52 tokens, the colour of a day is the quarter of the greatest count that its tokens
/// reach, rounded up.
pub proof fn law_colour_quarters(range: DayRange, values: Tally, i: int, quarter: int)
    requires
        range.valid(),
        0 <= i < range.len(),
        1 <= quarter <= 3,
        heatmap(range, values@)[i].value > 0,
        sessions::peak(values@) < 0x10_0000_0000_0000,
    ensures
        heatmap(range, values@)[i].intensity <= quarter <==> 4 * heatmap(range, values@)[i].value
            <= quarter * sessions::peak(values@),
        heatmap(range, values@)[i].value <= sessions::peak(values@),
{
    let tally = values@;
    let value = heatmap(range, tally)[i].value;
    sessions::lemma_tally_finite(values);
    sessions::lemma_peak_exists(tally);
    assert(tally.contains_key(day_text(range.start + i)));
    heat::law_exact_quarters(value as nat, sessions::peak(tally) as nat, quarter);
    heat::law_blank_iff_zero(value as nat, sessions::peak(tally) as nat);
}

/// Law: the number of days that is asked for is kept from 1 to 366, and 210 where none is.
pub proof fn law_day_count(n: u32)
    ensures
        1 <= n <= 366 ==> day_count(Some(n)) == n,
        n == 0 ==> day_count(Some(n)) == 1,
        n > 366 ==> day_count(Some(n)) == 366,
        day_count(None) == 210,
{
}

/// Law: the setting `CODEX_HOME` names a directory where it is more than white space, without the
/// white space around it.
pub proof fn law_codex_home(before: Seq<char>, core: Seq<char>, after: Seq<char>)
    requires
        text::all_of(before, CharClass::WhiteSpace),
        text::all_of(after, CharClass::WhiteSpace),
        core.len() > 0 ==> !CharClass::WhiteSpace.holds(core.first())
            && !CharClass::WhiteSpace.holds(core.last()),
    ensures
        core.len() > 0 ==> codex_home(Some(before + core + after)) == Some(core),
        core.len() == 0 ==> codex_home(Some(before + core + after)) is None,
        codex_home(None) is None,
{
    text::law_strip(before, core, after, CharClass::WhiteSpace);
}

/// Law: the directories of a date are named by its year, its month and its day, in four, two and two
/// digits at least.
pub proof fn law_dir_names(date: Date)
    requires
        0 <= date.year <= 9999,
        1 <= date.month <= 12,
        1 <= date.day <= 31,
    ensures
        ({
            let dir = dir_of(date);
            &&& text::digits_value(dir.year) == date.year
            &&& text::digits_value(dir.month) == date.month
            &&& text::digits_value(dir.day) == date.day
            &&& dir.year.len() == 4
            &&& dir.month.len() == 2
            &&& dir.day.len() == 2
            &&& date.iso_text() == dir.year + seq!['-'] + dir.month + seq!['-'] + dir.day
        }),
{
    text::lemma_padded_value(date.year as nat, 4);
    text::lemma_padded_value(date.month as nat, 2);
    text::lemma_padded_value(date.day as nat, 2);
    reveal_with_fuel(text::decimal, 5);
    let dir = dir_of(date);
    assert(date.iso_text() =~= dir.year + seq!['-'] + dir.month + seq!['-'] + dir.day);
}

/// Law: a session log has the extension `jsonl`, in any case, and no other.
pub proof fn law_session_logs(extension: Seq<char>)
    ensures
        session_log("jsonl"@),
        session_log(text::ascii_uppered(extension)) == session_log(extension),
        session_log(extension) && text::ascii_lowered(extension) == extension ==> extension
            == "jsonl"@,
{
    reveal_strlit("jsonl");
    assert(text::ascii_lowered("jsonl"@) =~= "jsonl"@);
    assert(text::ascii_lowered(text::ascii_uppered(extension)) =~= text::ascii_lowered(extension));
}

} // verus!
