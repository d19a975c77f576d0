//! Usage snapshots: rate limit windows, credits and account data read from JSON documents.
use crate::json::{self, Json, JsonNumber, JsonTree};
use crate::numeral::{self, is_number_text};
use crate::text::{self, slugify, strip, titleize, CharClass};
use crate::time::{self, Timestamp};
use vstd::prelude::*;

verus! {

/// A quantity as a document gives it: a number, or a text that reads as one. Its double precision value
/// is that of the number, or what the text reads as.
#[derive(Debug)]
pub enum Reading {
    Zero,
    Number(JsonNumber),
    Text(String),
}

pub enum ReadingView {
    Zero,
    Number(JsonNumber),
    Text(Seq<char>),
}

impl View for Reading {
    type V = ReadingView;

    open spec fn view(&self) -> ReadingView {
        match self {
            Reading::Zero => ReadingView::Zero,
            Reading::Number(n) => ReadingView::Number(*n),
            Reading::Text(s) => ReadingView::Text(s@),
        }
    }
}

/// What a document gives as a quantity: a number, or a text that reads as a number, without the white
/// space around it.
pub open spec fn quantity(tree: JsonTree) -> Option<ReadingView> {
    match tree {
        JsonTree::Number(n) => Some(ReadingView::Number(n)),
        JsonTree::Text(s) => {
            let inner = text::stripped(s, CharClass::WhiteSpace);
            if numeral::number_text(inner) {
                Some(ReadingView::Text(inner))
            } else {
                None
            }
        },
        _ => None,
    }
}

/// The quantity of an optional document; zero where there is none.
pub open spec fn quantity_or_zero(tree: Option<JsonTree>) -> ReadingView {
    match tree {
        Some(t) => match quantity(t) {
            Some(reading) => reading,
            None => ReadingView::Zero,
        },
        None => ReadingView::Zero,
    }
}

/// What a document gives as a quantity.
pub fn json_f64(value: &Json) -> (r: Option<Reading>)
    ensures
        r is Some == quantity(value@) is Some,
        r is Some ==> r->0@ == quantity(value@)->0,
{
    match value {
        Json::Number(n) => Some(Reading::Number(*n)),
        Json::Text(s) => {
            let inner = strip(s.as_str(), CharClass::WhiteSpace);
            if is_number_text(inner.as_str()) {
                Some(Reading::Text(inner))
            } else {
                None
            }
        },
        _ => None,
    }
}

pub(crate) fn reading_or_zero(value: Option<&Json>) -> (r: Reading)
    ensures
        r@ == quantity_or_zero(json::tree_of(value)),
{
    match value {
        Some(v) => match json_f64(v) {
            Some(reading) => reading,
            None => Reading::Zero,
        },
        None => Reading::Zero,
    }
}

/// One rate limit window.
#[derive(Debug)]
pub struct RateWindow {
    pub id: String,
    pub title: String,
    pub used_percent: Reading,
    pub window_minutes: Option<u32>,
    pub reset_at: Option<Timestamp>,
    pub reset_description: Option<String>,
}

pub struct RateWindowView {
    pub id: Seq<char>,
    pub title: Seq<char>,
    pub used_percent: ReadingView,
    pub window_minutes: Option<u32>,
    pub reset_at: Option<Timestamp>,
    pub reset_description: Option<Seq<char>>,
}

impl View for RateWindow {
    type V = RateWindowView;

    open spec fn view(&self) -> RateWindowView {
        RateWindowView {
            id: self.id@,
            title: self.title@,
            used_percent: self.used_percent@,
            window_minutes: self.window_minutes,
            reset_at: self.reset_at,
            reset_description: text::opt_view(self.reset_description),
        }
    }
}

impl RateWindowView {
    /// A window of which only the used share is known.
    pub open spec fn simple(
        id: Seq<char>,
        title: Seq<char>,
        used_percent: ReadingView,
    ) -> RateWindowView {
        RateWindowView {
            id,
            title,
            used_percent,
            window_minutes: None,
            reset_at: None,
            reset_description: None,
        }
    }
}

impl RateWindow {
    /// A window of which only the used share is known.
    pub fn simple(id: &str, title: &str, used_percent: Reading) -> (r: Self)
        ensures
            r@ == RateWindowView::simple(id@, title@, used_percent@),
    {
        RateWindow {
            id: id.to_owned(),
            title: title.to_owned(),
            used_percent,
            window_minutes: None,
            reset_at: None,
            reset_description: None,
        }
    }
}

/// The low 32 bits of an integer.
pub open spec fn low_32_bits(n: int) -> u32 {
    (n % 0x1_0000_0000) as u32
}

fn to_low_32_bits(n: i64) -> (r: u32)
    ensures
        r == low_32_bits(n as int),
{
    let r: u32 = #[verifier::truncate] (n as u32);
    assert(n as u32 == n % 0x1_0000_0000) by (bit_vector);
    r
}

/// The length of a window in minutes: from its length in seconds, else from its length in minutes.
pub open spec fn minutes_of_window(tree: JsonTree) -> Option<u32> {
    match integer(tree.get("limit_window_seconds"@)) {
        Some(seconds) => Some(low_32_bits(time::truncated(seconds as int, 60))),
        None => match integer(tree.get2("windowDurationMins"@, "window_duration_mins"@)) {
            Some(minutes) => Some(low_32_bits(minutes as int)),
            None => None,
        },
    }
}

/// The value of an optional document that is an integer.
pub open spec fn integer(tree: Option<JsonTree>) -> Option<i64> {
    match tree {
        Some(t) => t.as_i64(),
        None => None,
    }
}

/// The text of an optional document that is a string.
pub open spec fn string(tree: Option<JsonTree>) -> Option<Seq<char>> {
    match tree {
        Some(t) => t.as_str(),
        None => None,
    }
}

pub(crate) fn integer_of(value: Option<&Json>) -> (r: Option<i64>)
    ensures
        r == integer(json::tree_of(value)),
{
    match value {
        Some(v) => v.as_i64(),
        None => None,
    }
}

pub(crate) fn string_of(value: Option<&Json>) -> (r: Option<&str>)
    ensures
        r is Some == string(json::tree_of(value)) is Some,
        r is Some ==> r->0@ == string(json::tree_of(value))->0,
{
    match value {
        Some(v) => v.as_str(),
        None => None,
    }
}

/// When a window resets: the instant given in whole seconds, else the instant given as a text.
pub open spec fn reset_of_window(tree: JsonTree) -> Option<Timestamp> {
    match integer(tree.get3("reset_at"@, "resetsAt"@, "resetAt"@)) {
        Some(secs) if (Timestamp { secs, nanos: 0 }).valid() => Some(Timestamp { secs, nanos: 0 }),
        _ => match string(tree.get2("resetsAt"@, "resetAt"@)) {
            Some(s) => time::rfc3339_instant(s),
            None => None,
        },
    }
}

/// The window that a document describes, with the countdown from `now`.
pub open spec fn window(
    id: Seq<char>,
    title: Seq<char>,
    tree: JsonTree,
    now: Timestamp,
) -> RateWindowView {
    RateWindowView {
        id,
        title,
        used_percent: quantity_or_zero(
            tree.get4("used_percent"@, "usedPercent"@, "usage_percent"@, "usagePercent"@),
        ),
        window_minutes: minutes_of_window(tree),
        reset_at: reset_of_window(tree),
        reset_description: match reset_of_window(tree) {
            Some(reset_at) => Some(time::countdown(time::seconds_between(reset_at, now))),
            None => None,
        },
    }
}

fn parse_window_minutes(value: &Json) -> (r: Option<u32>)
    ensures
        r == minutes_of_window(value@),
{
    match integer_of(value.get("limit_window_seconds")) {
        Some(seconds) => Some(to_low_32_bits(seconds / 60)),
        None => match integer_of(value.get2("windowDurationMins", "window_duration_mins")) {
            Some(minutes) => Some(to_low_32_bits(minutes)),
            None => None,
        },
    }
}

fn parse_reset(value: &Json) -> (r: Option<Timestamp>)
    ensures
        r == reset_of_window(value@),
        r is Some ==> r->0.valid(),
{
    let given = match integer_of(value.get3("reset_at", "resetsAt", "resetAt")) {
        Some(secs) => time::timestamp_opt(secs, 0),
        None => None,
    };
    if given.is_some() {
        return given;
    }
    match string_of(value.get2("resetsAt", "resetAt")) {
        Some(s) => time::parse_datetime(s),
        None => None,
    }
}

/// Reads a rate limit window, with the countdown from `now`.
pub fn parse_window(id: &str, title: &str, value: &Json, now: Timestamp) -> (r: RateWindow)
    requires
        now.valid(),
    ensures
        r@ == window(id@, title@, value@, now),
{
    let used_percent = reading_or_zero(
        value.get4("used_percent", "usedPercent", "usage_percent", "usagePercent"),
    );
    let reset_at = parse_reset(value);
    let reset_description = match reset_at {
        Some(instant) => Some(time::format_reset_countdown_at(instant, now)),
        None => None,
    };
    RateWindow {
        id: id.to_owned(),
        title: title.to_owned(),
        used_percent,
        window_minutes: parse_window_minutes(value),
        reset_at,
        reset_description,
    }
}

/// Whether a document is the object without fields.
pub open spec fn empty_object(tree: JsonTree) -> bool {
    tree.as_object() matches Some(fields) && fields.len() == 0
}

fn is_empty_object(value: &Json) -> (r: bool)
    ensures
        r == empty_object(value@),
{
    match value.as_object() {
        Some(fields) => fields.len() == 0,
        None => false,
    }
}

/// The identifier of a named limit.
pub open spec fn limit_id(name: Seq<char>) -> Seq<char> {
    "codex-"@ + text::slug(name)
}

fn limit_id_of(name: &str) -> (r: String)
    ensures
        r@ == limit_id(name@),
{
    let mut out = "codex-".to_owned();
    out.append(slugify(name).as_str());
    out
}

/// A text where there is one, else another.
pub open spec fn text_or(s: Option<Seq<char>>, other: Seq<char>) -> Seq<char> {
    match s {
        Some(s) => s,
        None => other,
    }
}

/// A document where there is one, else another.
pub open spec fn tree_or(tree: Option<JsonTree>, other: JsonTree) -> JsonTree {
    match tree {
        Some(t) => t,
        None => other,
    }
}

/// The feature that an additional limit meters.
pub open spec fn limit_feature(entry: JsonTree) -> Seq<char> {
    text_or(string(entry.get2("metered_feature"@, "meteredFeature"@)), seq![])
}

/// The name of an additional limit; that of its feature where it has none.
pub open spec fn limit_name(entry: JsonTree) -> Seq<char> {
    text_or(string(entry.get2("limit_name"@, "limitName"@)), limit_feature(entry))
}

/// The part of an additional limit that holds its windows.
pub open spec fn limit_windows(entry: JsonTree) -> JsonTree {
    tree_or(entry.get2("rate_limit"@, "rateLimit"@), entry)
}

/// Whether an additional limit is one of Codex Spark, by its feature or by its name.
pub open spec fn spark_limit(entry: JsonTree) -> bool {
    ||| text::ascii_lowered(limit_feature(entry)) == text::ascii_lowered("codex_spark"@)
    ||| text::occurs("spark"@, text::ascii_lowered(limit_name(entry)))
}

/// Whether a limit spans a week or more, or has a secondary window.
pub open spec fn weekly_limit(entry: JsonTree, parsed: RateWindowView) -> bool {
    ||| parsed.window_minutes matches Some(minutes) && minutes >= 10_080
    ||| limit_windows(entry).get("secondary_window"@) is Some
}

/// The window of an additional limit; none where it has no window or an empty one. The windows of
/// Codex Spark have identifiers and titles of their own.
pub open spec fn additional_limit(entry: JsonTree, now: Timestamp) -> Option<RateWindowView> {
    match limit_windows(entry).get4(
        "primary_window"@,
        "primary"@,
        "secondary_window"@,
        "secondary"@,
    ) {
        Some(tree) if !empty_object(tree) => {
            let name = limit_name(entry);
            let parsed = window(limit_id(name), text::title(name), tree, now);
            if !spark_limit(entry) {
                Some(parsed)
            } else if weekly_limit(entry, parsed) {
                Some(
                    RateWindowView {
                        id: "codex-spark-weekly"@,
                        title: "Codex Spark Weekly"@,
                        ..parsed
                    },
                )
            } else {
                Some(
                    RateWindowView { id: "codex-spark"@, title: "Codex Spark 5-hour"@, ..parsed },
                )
            }
        },
        _ => None,
    }
}

/// The window behind an optional value.
pub open spec fn opt_window(w: Option<RateWindow>) -> Option<RateWindowView> {
    match w {
        Some(w) => Some(w@),
        None => None,
    }
}

/// Reads the window of an additional limit.
pub fn parse_additional_rate_limit(entry: &Json, now: Timestamp) -> (r: Option<RateWindow>)
    requires
        now.valid(),
    ensures
        opt_window(r) == additional_limit(entry@, now),
{
    let feature = match string_of(entry.get2("metered_feature", "meteredFeature")) {
        Some(s) => s.to_owned(),
        None => String::new(),
    };
    let name = match string_of(entry.get2("limit_name", "limitName")) {
        Some(s) => s.to_owned(),
        None => feature.clone(),
    };
    assert(feature@ =~= limit_feature(entry@));
    let limits = match entry.get2("rate_limit", "rateLimit") {
        Some(v) => v,
        None => entry,
    };
    let value = match limits.get4("primary_window", "primary", "secondary_window", "secondary") {
        Some(v) => v,
        None => {
            return None;
        },
    };
    if is_empty_object(value) {
        return None;
    }
    let mut parsed = parse_window(
        limit_id_of(name.as_str()).as_str(),
        titleize(name.as_str()).as_str(),
        value,
        now,
    );
    let lower_name = text::lower_text(&text::chars_of(name.as_str()));
    if text::equal_ignoring_case(feature.as_str(), "codex_spark") || text::contains_text(
        lower_name.as_str(),
        "spark",
    ) {
        let long = match parsed.window_minutes {
            Some(minutes) => minutes >= 10_080,
            None => false,
        };
        if long || limits.get("secondary_window").is_some() {
            parsed.id = "codex-spark-weekly".to_owned();
            parsed.title = "Codex Spark Weekly".to_owned();
        } else {
            parsed.id = "codex-spark".to_owned();
            parsed.title = "Codex Spark 5-hour".to_owned();
        }
    }
    Some(parsed)
}

/// The contents of a list of windows.
pub open spec fn windows(v: Seq<RateWindow>) -> Seq<RateWindowView> {
    v.map_values(|w: RateWindow| w@)
}

/// The windows of those entries that have one, in their order.
pub open spec fn additional_limits(entries: Seq<JsonTree>, now: Timestamp) -> Seq<RateWindowView>
    decreases entries.len(),
{
    if entries.len() == 0 {
        seq![]
    } else {
        let before = additional_limits(entries.drop_last(), now);
        match additional_limit(entries.last(), now) {
            Some(w) => before.push(w),
            None => before,
        }
    }
}

/// The items of an optional document that is an array; none where it is not.
pub open spec fn items(tree: Option<JsonTree>) -> Seq<JsonTree> {
    match tree {
        Some(JsonTree::Array(items)) => items,
        _ => seq![],
    }
}

/// The windows of the additional limits of a document.
pub open spec fn additional_windows(tree: JsonTree, now: Timestamp) -> Seq<RateWindowView> {
    additional_limits(items(tree.get2("additional_rate_limits"@, "additionalRateLimits"@)), now)
}

/// Reads the windows of the additional limits.
pub fn extract_additional_rate_limits(json: &Json, now: Timestamp) -> (r: Vec<RateWindow>)
    requires
        now.valid(),
    ensures
        windows(r@) == additional_windows(json@, now),
{
    let mut out: Vec<RateWindow> = Vec::new();
    assert(windows(out@) =~= seq![]);
    let list = match json.get2("additional_rate_limits", "additionalRateLimits") {
        Some(v) => v.as_array(),
        None => None,
    };
    if let Some(entries) = list {
        let ghost all = json::trees(entries@);
        assert(all == items(json@.get2("additional_rate_limits"@, "additionalRateLimits"@)));
        let mut i: usize = 0;
        assert(all.take(0) =~= seq![]);
        while i < entries.len()
            invariant
                now.valid(),
                i <= entries.len(),
                all == json::trees(entries@),
                windows(out@) == additional_limits(all.take(i as int), now),
            decreases entries.len() - i,
        {
            assert(all.take(i + 1).drop_last() =~= all.take(i as int));
            assert(all[i as int] == entries@[i as int]@);
            let ghost before = windows(out@);
            if let Some(w) = parse_additional_rate_limit(&entries[i], now) {
                let ghost view = w@;
                out.push(w);
                assert(windows(out@) =~= before.push(view));
            }
            i += 1;
        }
        assert(all.take(i as int) =~= all);
    }
    out
}

/// The window of a limit listed by its identifier; none for Codex itself and for an empty window.
pub open spec fn limit_by_id(
    id: Seq<char>,
    tree: JsonTree,
    now: Timestamp,
) -> Option<RateWindowView> {
    let name = text_or(string(tree.get2("limitName"@, "limit_name"@)), id);
    let part = tree_or(
        tree.get4("primary"@, "secondary"@, "primary_window"@, "secondary_window"@),
        tree,
    );
    if text::ascii_lowered(id) == text::ascii_lowered("codex"@) || empty_object(part) {
        None
    } else {
        Some(window(limit_id(id), text::title(name), part, now))
    }
}

fn parse_limit_by_id(id: &str, value: &Json, now: Timestamp) -> (r: Option<RateWindow>)
    requires
        now.valid(),
    ensures
        opt_window(r) == limit_by_id(id@, value@, now),
{
    if text::equal_ignoring_case(id, "codex") {
        return None;
    }
    let name = match string_of(value.get2("limitName", "limit_name")) {
        Some(s) => s,
        None => id,
    };
    let part = match value.get4("primary", "secondary", "primary_window", "secondary_window") {
        Some(v) => v,
        None => value,
    };
    if is_empty_object(part) {
        return None;
    }
    Some(parse_window(limit_id_of(id).as_str(), titleize(name).as_str(), part, now))
}

/// The windows of those limits that have one, in their order.
pub open spec fn limits_by_id(
    fields: Seq<(Seq<char>, JsonTree)>,
    now: Timestamp,
) -> Seq<RateWindowView>
    decreases fields.len(),
{
    if fields.len() == 0 {
        seq![]
    } else {
        let before = limits_by_id(fields.drop_last(), now);
        match limit_by_id(fields.last().0, fields.last().1, now) {
            Some(w) => before.push(w),
            None => before,
        }
    }
}

/// The fields of an optional document that is an object; none where it is not.
pub open spec fn fields(tree: Option<JsonTree>) -> Seq<(Seq<char>, JsonTree)> {
    match tree {
        Some(JsonTree::Object(fields)) => fields,
        _ => seq![],
    }
}

/// The windows of the limits that a document lists by identifier.
pub open spec fn windows_by_id(tree: JsonTree, now: Timestamp) -> Seq<RateWindowView> {
    limits_by_id(fields(tree.get2("rateLimitsByLimitId"@, "rate_limits_by_limit_id"@)), now)
}

/// Reads the windows of the limits that are listed by identifier.
pub fn extract_rate_limits_by_id(json: &Json, now: Timestamp) -> (r: Vec<RateWindow>)
    requires
        now.valid(),
    ensures
        windows(r@) == windows_by_id(json@, now),
{
    let mut out: Vec<RateWindow> = Vec::new();
    assert(windows(out@) =~= seq![]);
    let map = match json.get2("rateLimitsByLimitId", "rate_limits_by_limit_id") {
        Some(v) => v.as_object(),
        None => None,
    };
    if let Some(entries) = map {
        let ghost all = json::field_trees(entries@);
        assert(all == fields(json@.get2("rateLimitsByLimitId"@, "rate_limits_by_limit_id"@)));
        let mut i: usize = 0;
        assert(all.take(0) =~= seq![]);
        while i < entries.len()
            invariant
                now.valid(),
                i <= entries.len(),
                all == json::field_trees(entries@),
                windows(out@) == limits_by_id(all.take(i as int), now),
            decreases entries.len() - i,
        {
            assert(all.take(i + 1).drop_last() =~= all.take(i as int));
            assert(all[i as int] == (entries@[i as int].0@, entries@[i as int].1@));
            let ghost before = windows(out@);
            if let Some(w) = parse_limit_by_id(entries[i].0.as_str(), &entries[i].1, now) {
                let ghost view = w@;
                out.push(w);
                assert(windows(out@) =~= before.push(view));
            }
            i += 1;
        }
        assert(all.take(i as int) =~= all);
    }
    out
}

/// Whether one of the windows has the identifier.
pub open spec fn has_id(ws: Seq<RateWindowView>, id: Seq<char>) -> bool {
    exists|i: int| 0 <= i < ws.len() && (#[trigger] ws[i]).id == id
}

/// The first window of each identifier, in their order.
pub open spec fn deduped(ws: Seq<RateWindowView>) -> Seq<RateWindowView>
    decreases ws.len(),
{
    if ws.len() == 0 {
        ws
    } else if has_id(ws.drop_last(), ws.last().id) {
        deduped(ws.drop_last())
    } else {
        deduped(ws.drop_last()).push(ws.last())
    }
}

/// Removing repeated identifiers loses none.
pub proof fn lemma_deduped_keeps_ids(ws: Seq<RateWindowView>, id: Seq<char>)
    ensures
        has_id(deduped(ws), id) == has_id(ws, id),
    decreases ws.len(),
{
    if ws.len() > 0 {
        let rest = ws.drop_last();
        lemma_deduped_keeps_ids(rest, id);
        if has_id(ws, id) {
            let i = choose|i: int| 0 <= i < ws.len() && (#[trigger] ws[i]).id == id;
            if i < ws.len() - 1 {
                assert(rest[i].id == id);
                let k = choose|k: int|
                    0 <= k < deduped(rest).len() && (#[trigger] deduped(rest)[k]).id == id;
                assert(deduped(ws)[k].id == id);
            } else if !has_id(rest, ws.last().id) {
                assert(deduped(ws).last().id == id);
            }
        }
        if has_id(deduped(ws), id) && !has_id(rest, id) {
            let k = choose|k: int|
                0 <= k < deduped(ws).len() && (#[trigger] deduped(ws)[k]).id == id;
            if k < deduped(rest).len() {
                assert(deduped(rest)[k].id == id);
            }
            assert(ws[ws.len() - 1].id == id);
        }
        if has_id(rest, id) {
            let i = choose|i: int| 0 <= i < rest.len() && (#[trigger] rest[i]).id == id;
            assert(ws[i].id == id);
        }
    }
}

fn is_repeated(list: &Vec<RateWindow>, end: usize, id: &String) -> (r: bool)
    requires
        end <= list.len(),
    ensures
        r == has_id(windows(list@.take(end as int)), id@),
{
    let ghost ws = windows(list@.take(end as int));
    let mut i: usize = 0;
    while i < end
        invariant
            i <= end <= list.len(),
            ws == windows(list@.take(end as int)),
            forall|k: int| 0 <= k < i ==> (#[trigger] ws[k]).id != id@,
        decreases end - i,
    {
        assert(ws[i as int] == list@[i as int]@);
        if list[i].id == *id {
            return true;
        }
        i += 1;
    }
    false
}

/// Keeps the first window of each identifier.
pub fn dedupe_rate_windows(list: &mut Vec<RateWindow>)
    ensures
        windows(final(list)@) == deduped(windows(old(list)@)),
{
    let ghost all = list@;
    let ghost mut done: int = 0;
    let mut i: usize = 0;
    assert(windows(list@.take(0)) =~= deduped(windows(all.take(0))));
    assert(list@.skip(0) =~= all.skip(0));
    while i < list.len()
        invariant
            0 <= i <= list@.len(),
            0 <= done <= all.len(),
            windows(list@.take(i as int)) == deduped(windows(all.take(done))),
            list@.skip(i as int) == all.skip(done),
        decreases list.len() - i,
    {
        let ghost current = list@;
        assert(list@.skip(i as int).len() == all.skip(done).len());
        assert(list@.skip(i as int)[0] == all.skip(done)[0]);
        assert(list@[i as int] == all[done]);
        let id = list[i].id.clone();
        proof {
            lemma_deduped_keeps_ids(windows(all.take(done)), id@);
            assert(windows(all.take(done + 1)).drop_last() =~= windows(all.take(done)));
            assert(windows(all.take(done + 1)).last() == all[done]@);
        }
        if is_repeated(list, i, &id) {
            let gone = list.remove(i);
            assert(list@.take(i as int) =~= current.take(i as int));
            assert(list@.skip(i as int) =~= all.skip(done + 1)) by {
                assert(current.skip(i as int).drop_first() =~= all.skip(done + 1));
                assert(current.skip(i as int).drop_first() =~= list@.skip(i as int));
            }
        } else {
            assert(windows(current.take(i + 1)) =~= windows(current.take(i as int)).push(
                current[i as int]@,
            ));
            assert(current.skip(i as int).drop_first() =~= all.skip(done + 1));
            assert(current.skip(i as int).drop_first() =~= current.skip(i + 1));
            i += 1;
        }
        proof {
            done = done + 1;
        }
    }
    assert(all.skip(done).len() == 0);
    assert(all.take(done) =~= all);
    assert(list@.take(i as int) =~= list@);
}

/// The balance of bought credits.
#[derive(Debug)]
pub struct CostSnapshot {
    pub balance: Reading,
    pub currency: String,
    pub label: String,
}

pub struct CostView {
    pub balance: ReadingView,
    pub currency: Seq<char>,
    pub label: Seq<char>,
}

impl View for CostSnapshot {
    type V = CostView;

    open spec fn view(&self) -> CostView {
        CostView { balance: self.balance@, currency: self.currency@, label: self.label@ }
    }
}

pub open spec fn opt_cost(c: Option<CostSnapshot>) -> Option<CostView> {
    match c {
        Some(c) => Some(c@),
        None => None,
    }
}

/// The value of an optional document that is a boolean, else the default.
pub open spec fn flag(tree: Option<JsonTree>, default: bool) -> bool {
    match tree {
        Some(JsonTree::Bool(b)) => b,
        _ => default,
    }
}

fn flag_of(value: Option<&Json>, default: bool) -> (r: bool)
    ensures
        r == flag(json::tree_of(value), default),
{
    let given = match value {
        Some(v) => v.as_bool(),
        None => None,
    };
    match given {
        Some(b) => b,
        None => default,
    }
}

/// The credits of a document; none where it lists none, denies having them, or they are unlimited.
pub open spec fn credits(tree: JsonTree) -> Option<CostView> {
    match tree.get3("credits"@, "creditBalance"@, "credit_balance"@) {
        Some(part) if flag(part.get2("has_credits"@, "hasCredits"@), true) && !flag(
            part.get("unlimited"@),
            false,
        ) => Some(
            CostView {
                balance: quantity_or_zero(
                    part.get3("balance"@, "remaining"@, "remainingBalance"@),
                ),
                currency: "USD"@,
                label: "Credits"@,
            },
        ),
        _ => None,
    }
}

/// Reads the credits.
pub fn extract_credits(json: &Json) -> (r: Option<CostSnapshot>)
    ensures
        opt_cost(r) == credits(json@),
{
    let part = match json.get3("credits", "creditBalance", "credit_balance") {
        Some(v) => v,
        None => {
            return None;
        },
    };
    let has_credits = flag_of(part.get2("has_credits", "hasCredits"), true);
    let unlimited = flag_of(part.get("unlimited"), false);
    if !has_credits || unlimited {
        return None;
    }
    Some(
        CostSnapshot {
            balance: reading_or_zero(part.get3("balance", "remaining", "remainingBalance")),
            currency: "USD".to_owned(),
            label: "Credits".to_owned(),
        },
    )
}

/// The field `inner` of the field `outer`.
pub open spec fn nested(tree: JsonTree, outer: Seq<char>, inner: Seq<char>) -> Option<JsonTree> {
    match tree.get(outer) {
        Some(t) => t.get(inner),
        None => None,
    }
}

pub(crate) fn nested_of<'a>(value: &'a Json, outer: &str, inner: &str) -> (r: Option<&'a Json>)
    ensures
        json::tree_of(r) == nested(value@, outer@, inner@),
{
    match value.get(outer) {
        Some(v) => v.get(inner),
        None => None,
    }
}

/// A text that is more than white space.
pub open spec fn filled(s: Option<Seq<char>>) -> Option<Seq<char>> {
    match s {
        Some(s) if text::stripped(s, CharClass::WhiteSpace).len() > 0 => Some(s),
        _ => None,
    }
}

fn filled_of(value: Option<&Json>) -> (r: Option<String>)
    ensures
        text::opt_view(r) == filled(string(json::tree_of(value))),
{
    match string_of(value) {
        Some(s) => {
            if strip(s, CharClass::WhiteSpace).as_str().is_empty() {
                None
            } else {
                Some(s.to_owned())
            }
        },
        None => None,
    }
}

/// The first of two documents that is there.
pub open spec fn either(a: Option<JsonTree>, b: Option<JsonTree>) -> Option<JsonTree> {
    match a {
        Some(t) => Some(t),
        None => b,
    }
}

/// The e-mail address of an account: of the document itself, of its `account` or of its `user`.
pub open spec fn account_email(tree: JsonTree) -> Option<Seq<char>> {
    filled(
        string(
            either(
                tree.get("email"@),
                either(
                    nested(tree, "account"@, "email"@),
                    nested(tree, "user"@, "email"@),
                ),
            ),
        ),
    )
}

/// Reads the e-mail address of an account.
pub fn extract_account_email(account: &Json) -> (r: Option<String>)
    ensures
        text::opt_view(r) == account_email(account@),
{
    let mut found = account.get("email");
    if found.is_none() {
        found = nested_of(account, "account", "email");
    }
    if found.is_none() {
        found = nested_of(account, "user", "email");
    }
    filled_of(found)
}

/// The plan of an account: of the document itself or of its `account`.
pub open spec fn account_plan(tree: JsonTree) -> Option<Seq<char>> {
    filled(
        string(
            either(
                tree.get2("planType"@, "plan_type"@),
                either(
                    nested(tree, "account"@, "planType"@),
                    nested(tree, "account"@, "plan_type"@),
                ),
            ),
        ),
    )
}

/// Reads the plan of an account.
pub fn extract_account_plan_type(account: &Json) -> (r: Option<String>)
    ensures
        text::opt_view(r) == account_plan(account@),
{
    let mut found = account.get2("planType", "plan_type");
    if found.is_none() {
        found = nested_of(account, "account", "planType");
    }
    if found.is_none() {
        found = nested_of(account, "account", "plan_type");
    }
    filled_of(found)
}

/// The label of a plan; an unknown plan is its own label.
pub open spec fn label_of_plan(plan: Seq<char>) -> Seq<char> {
    if plan == "free"@ {
        "ChatGPT Free"@
    } else if plan == "go"@ {
        "Codex Go"@
    } else if plan == "plus"@ {
        "ChatGPT Plus"@
    } else if plan == "pro"@ {
        "ChatGPT Pro"@
    } else if plan == "team"@ {
        "ChatGPT Team"@
    } else if plan == "business"@ {
        "ChatGPT Business"@
    } else if plan == "enterprise"@ {
        "ChatGPT Enterprise"@
    } else if plan == "education"@ || plan == "edu"@ {
        "ChatGPT Education"@
    } else {
        plan
    }
}

/// The label of a plan.
pub fn plan_label(plan: &str) -> (r: String)
    ensures
        r@ == label_of_plan(plan@),
{
    if text::same_text(plan, "free") {
        "ChatGPT Free".to_owned()
    } else if text::same_text(plan, "go") {
        "Codex Go".to_owned()
    } else if text::same_text(plan, "plus") {
        "ChatGPT Plus".to_owned()
    } else if text::same_text(plan, "pro") {
        "ChatGPT Pro".to_owned()
    } else if text::same_text(plan, "team") {
        "ChatGPT Team".to_owned()
    } else if text::same_text(plan, "business") {
        "ChatGPT Business".to_owned()
    } else if text::same_text(plan, "enterprise") {
        "ChatGPT Enterprise".to_owned()
    } else if text::same_text(plan, "education") || text::same_text(plan, "edu") {
        "ChatGPT Education".to_owned()
    } else {
        plan.to_owned()
    }
}

/// The label of an optional plan.
pub open spec fn opt_label(plan: Option<Seq<char>>) -> Option<Seq<char>> {
    match plan {
        Some(p) => Some(label_of_plan(p)),
        None => None,
    }
}

pub(crate) fn label_of(plan: &Option<String>) -> (r: Option<String>)
    ensures
        text::opt_view(r) == opt_label(text::opt_view(*plan)),
{
    match plan {
        Some(p) => Some(plan_label(p.as_str())),
        None => None,
    }
}

pub(crate) fn copy_text(s: &Option<String>) -> (r: Option<String>)
    ensures
        text::opt_view(r) == text::opt_view(*s),
{
    match s {
        Some(s) => Some(s.clone()),
        None => None,
    }
}

impl Clone for Reading {
    fn clone(&self) -> (r: Self)
        ensures
            r@ == self@,
    {
        match self {
            Reading::Zero => Reading::Zero,
            Reading::Number(n) => Reading::Number(*n),
            Reading::Text(s) => Reading::Text(s.clone()),
        }
    }
}

impl Clone for RateWindow {
    fn clone(&self) -> (r: Self)
        ensures
            r@ == self@,
    {
        RateWindow {
            id: self.id.clone(),
            title: self.title.clone(),
            used_percent: self.used_percent.clone(),
            window_minutes: self.window_minutes,
            reset_at: self.reset_at,
            reset_description: copy_text(&self.reset_description),
        }
    }
}

impl Clone for CostSnapshot {
    fn clone(&self) -> (r: Self)
        ensures
            r@ == self@,
    {
        CostSnapshot {
            balance: self.balance.clone(),
            currency: self.currency.clone(),
            label: self.label.clone(),
        }
    }
}

pub(crate) fn copy_window(w: &Option<RateWindow>) -> (r: Option<RateWindow>)
    ensures
        opt_window(r) == opt_window(*w),
{
    match w {
        Some(w) => Some(w.clone()),
        None => None,
    }
}

pub(crate) fn copy_windows(list: &Vec<RateWindow>) -> (r: Vec<RateWindow>)
    ensures
        windows(r@) == windows(list@),
{
    let mut out: Vec<RateWindow> = Vec::new();
    let mut i: usize = 0;
    while i < list.len()
        invariant
            i <= list.len(),
            out@.len() == i,
            forall|k: int| 0 <= k < i ==> (#[trigger] out@[k])@ == list@[k]@,
        decreases list.len() - i,
    {
        out.push(list[i].clone());
        i += 1;
    }
    assert(windows(out@) =~= windows(list@));
    out
}

/// Law: the label of a label is the label itself.
pub proof fn law_label_idempotent(plan: Seq<char>)
    ensures
        label_of_plan(label_of_plan(plan)) == label_of_plan(plan),
{
    reveal_strlit("free");
    reveal_strlit("go");
    reveal_strlit("plus");
    reveal_strlit("pro");
    reveal_strlit("team");
    reveal_strlit("business");
    reveal_strlit("enterprise");
    reveal_strlit("education");
    reveal_strlit("edu");
    reveal_strlit("ChatGPT Free");
    reveal_strlit("Codex Go");
    reveal_strlit("ChatGPT Plus");
    reveal_strlit("ChatGPT Pro");
    reveal_strlit("ChatGPT Team");
    reveal_strlit("ChatGPT Business");
    reveal_strlit("ChatGPT Enterprise");
    reveal_strlit("ChatGPT Education");
    assert("Codex Go"@[0] == 'C' && "business"@[0] == 'b');
    let label = label_of_plan(plan);
    if label != plan {
        assert(label.len() == 8 || label.len() > 10);
        assert(label[0] == 'C');
        assert(label != "free"@ && label != "go"@ && label != "plus"@ && label != "pro"@);
        assert(label != "team"@ && label != "business"@ && label != "enterprise"@);
        assert(label != "education"@ && label != "edu"@);
    }
}

/// Whether no two windows have the same identifier.
pub open spec fn distinct_ids(ws: Seq<RateWindowView>) -> bool {
    forall|i: int, j: int| 0 <= i < j < ws.len() ==> (#[trigger] ws[i]).id != (#[trigger] ws[j]).id
}

/// Law: removing repeated identifiers leaves each identifier once.
pub proof fn law_deduped_distinct(ws: Seq<RateWindowView>)
    ensures
        distinct_ids(deduped(ws)),
    decreases ws.len(),
{
    if ws.len() > 0 {
        let rest = ws.drop_last();
        law_deduped_distinct(rest);
        lemma_deduped_keeps_ids(rest, ws.last().id);
    }
}

/// Law: a list without repeated identifiers stays as it is.
pub proof fn law_distinct_stays(ws: Seq<RateWindowView>)
    requires
        distinct_ids(ws),
    ensures
        deduped(ws) == ws,
    decreases ws.len(),
{
    if ws.len() > 0 {
        let rest = ws.drop_last();
        assert(distinct_ids(rest)) by {
            assert forall|i: int, j: int| 0 <= i < j < rest.len() implies (#[trigger] rest[i]).id != (
            #[trigger] rest[j]).id by {
                assert(ws[i].id != ws[j].id);
            }
        }
        law_distinct_stays(rest);
        if has_id(rest, ws.last().id) {
            let i = choose|i: int| 0 <= i < rest.len() && (#[trigger] rest[i]).id == ws.last().id;
            assert(ws[i].id != ws[ws.len() - 1].id);
        }
        assert(rest.push(ws.last()) =~= ws);
    }
}

/// Law: of the windows with one identifier, the first stays.
pub proof fn law_first_window_stays(ws: Seq<RateWindowView>, i: int)
    requires
        0 <= i < ws.len(),
        !has_id(ws.take(i), ws[i].id),
    ensures
        deduped(ws).contains(ws[i]),
    decreases ws.len(),
{
    let rest = ws.drop_last();
    let kept = deduped(ws);
    if i == ws.len() - 1 {
        assert(ws.take(i) =~= rest);
        assert(kept[kept.len() - 1] == ws[i]);
    } else {
        assert(rest.take(i) =~= ws.take(i));
        law_first_window_stays(rest, i);
        let k = choose|k: int| 0 <= k < deduped(rest).len() && deduped(rest)[k] == rest[i];
        assert(kept[k] == ws[i]);
    }
}

/// Whether all identifiers begin with `codex-`.
pub open spec fn prefixed_ids(ws: Seq<RateWindowView>) -> bool {
    forall|i: int| 0 <= i < ws.len() ==> "codex-"@.is_prefix_of((#[trigger] ws[i]).id)
}

proof fn lemma_additional_prefixed(entries: Seq<JsonTree>, now: Timestamp)
    ensures
        prefixed_ids(additional_limits(entries, now)),
    decreases entries.len(),
{
    if entries.len() > 0 {
        lemma_additional_prefixed(entries.drop_last(), now);
        reveal_strlit("codex-");
        reveal_strlit("codex-spark");
        reveal_strlit("codex-spark-weekly");
        assert("codex-"@.is_prefix_of("codex-spark"@));
        assert("codex-"@.is_prefix_of("codex-spark-weekly"@));
        assert("codex-"@.is_prefix_of(limit_id(limit_name(entries.last()))));
    }
}

proof fn lemma_by_id_prefixed(fields: Seq<(Seq<char>, JsonTree)>, now: Timestamp)
    ensures
        prefixed_ids(limits_by_id(fields, now)),
    decreases fields.len(),
{
    if fields.len() > 0 {
        lemma_by_id_prefixed(fields.drop_last(), now);
        assert("codex-"@.is_prefix_of(limit_id(fields.last().0)));
    }
}

proof fn lemma_deduped_prefixed(ws: Seq<RateWindowView>)
    requires
        prefixed_ids(ws),
    ensures
        prefixed_ids(deduped(ws)),
    decreases ws.len(),
{
    if ws.len() > 0 {
        let rest = ws.drop_last();
        assert forall|i: int| 0 <= i < rest.len() implies "codex-"@.is_prefix_of(
            (#[trigger] rest[i]).id,
        ) by {
            assert("codex-"@.is_prefix_of(ws[i].id));
        }
        lemma_deduped_prefixed(rest);
        assert("codex-"@.is_prefix_of(ws[ws.len() - 1].id));
    }
}

/// Law: the identifiers of additional limits and of limits listed by identifier begin with `codex-`,
/// also after repeated ones are removed.
pub proof fn law_ids_prefixed(limits: JsonTree, listing: JsonTree, now: Timestamp)
    ensures
        prefixed_ids(additional_windows(limits, now)),
        prefixed_ids(windows_by_id(listing, now)),
        prefixed_ids(deduped(additional_windows(limits, now) + windows_by_id(listing, now))),
{
    let a = additional_windows(limits, now);
    let b = windows_by_id(listing, now);
    lemma_additional_prefixed(
        items(limits.get2("additional_rate_limits"@, "additionalRateLimits"@)),
        now,
    );
    lemma_by_id_prefixed(
        fields(listing.get2("rateLimitsByLimitId"@, "rate_limits_by_limit_id"@)),
        now,
    );
    assert forall|i: int| 0 <= i < (a + b).len() implies "codex-"@.is_prefix_of(
        (#[trigger] (a + b)[i]).id,
    ) by {
        if i < a.len() {
            assert("codex-"@.is_prefix_of(a[i].id));
        } else {
            assert("codex-"@.is_prefix_of(b[i - a.len()].id));
        }
    }
    lemma_deduped_prefixed(a + b);
}

} // verus!
