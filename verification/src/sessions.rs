//! Session logs: the tokens that each day's events count.
use crate::json::{self, Json, JsonTree};
use crate::json_text::{self, parse_json};
use crate::text::{self, chars_of, contains_text, text_of};
use crate::usage;
use vstd::prelude::*;

verus! {

/// Token counts by day, each day once.
#[derive(Debug)]
pub struct Tally {
    entries: Vec<(String, u64)>,
}

/// The counts of a list of entries; the last entry of a day counts.
pub open spec fn counts(entries: Seq<(String, u64)>) -> Map<Seq<char>, u64>
    decreases entries.len(),
{
    if entries.len() == 0 {
        Map::empty()
    } else {
        counts(entries.drop_last()).insert(entries.last().0@, entries.last().1)
    }
}

impl View for Tally {
    type V = Map<Seq<char>, u64>;

    closed spec fn view(&self) -> Map<Seq<char>, u64> {
        counts(self.entries@)
    }
}

/// The count of a day; zero where there is none.
pub open spec fn count_of(tally: Map<Seq<char>, u64>, day: Seq<char>) -> u64 {
    if tally.contains_key(day) {
        tally[day]
    } else {
        0
    }
}

/// The tally after `tokens` more on a day. The sum wraps around at 64 bits.
pub open spec fn credited(
    tally: Map<Seq<char>, u64>,
    day: Seq<char>,
    tokens: u64,
) -> Map<Seq<char>, u64> {
    tally.insert(day, count_of(tally, day).wrapping_add(tokens))
}

/// `max` is the greatest count, and zero where there is no count.
pub open spec fn is_peak(tally: Map<Seq<char>, u64>, max: u64) -> bool {
    &&& forall|day: Seq<char>| #[trigger] tally.contains_key(day) ==> tally[day] <= max
    &&& max == 0 || exists|day: Seq<char>| #[trigger] tally.contains_key(day) && tally[day] == max
}

/// The greatest count.
pub open spec fn peak(tally: Map<Seq<char>, u64>) -> u64 {
    choose|max: u64| is_peak(tally, max)
}

proof fn lemma_counts(entries: Seq<(String, u64)>, day: Seq<char>, i: int)
    requires
        0 <= i < entries.len(),
        entries[i].0@ == day,
        forall|k: int| i < k < entries.len() ==> (#[trigger] entries[k]).0@ != day,
    ensures
        counts(entries).contains_key(day),
        counts(entries)[day] == entries[i].1,
    decreases entries.len(),
{
    if i < entries.len() - 1 {
        let rest = entries.drop_last();
        assert forall|k: int| i < k < rest.len() implies (#[trigger] rest[k]).0@ != day by {
            assert(rest[k] == entries[k]);
        }
        lemma_counts(rest, day, i);
        assert(entries[entries.len() - 1].0@ != day);
    }
}

proof fn lemma_counts_absent(entries: Seq<(String, u64)>, day: Seq<char>)
    requires
        forall|k: int| 0 <= k < entries.len() ==> (#[trigger] entries[k]).0@ != day,
    ensures
        !counts(entries).contains_key(day),
    decreases entries.len(),
{
    if entries.len() > 0 {
        let rest = entries.drop_last();
        assert forall|k: int| 0 <= k < rest.len() implies (#[trigger] rest[k]).0@ != day by {
            assert(rest[k] == entries[k]);
        }
        lemma_counts_absent(rest, day);
        assert(entries[entries.len() - 1].0@ != day);
    }
}

/// Changing the last entry of a day changes the count of that day alone.
proof fn lemma_counts_update(entries: Seq<(String, u64)>, i: int, entry: (String, u64))
    requires
        0 <= i < entries.len(),
        entries[i].0@ == entry.0@,
        forall|k: int| i < k < entries.len() ==> (#[trigger] entries[k]).0@ != entry.0@,
    ensures
        counts(entries.update(i, entry)) == counts(entries).insert(entry.0@, entry.1),
    decreases entries.len(),
{
    let rest = entries.drop_last();
    if i < entries.len() - 1 {
        assert forall|k: int| i < k < rest.len() implies (#[trigger] rest[k]).0@ != entry.0@ by {
            assert(rest[k] == entries[k]);
        }
        lemma_counts_update(rest, i, entry);
        assert(entries.update(i, entry).drop_last() =~= rest.update(i, entry));
        assert(entries[entries.len() - 1].0@ != entry.0@);
        assert(counts(entries.update(i, entry)) =~= counts(entries).insert(entry.0@, entry.1));
    } else {
        assert(entries.update(i, entry).drop_last() =~= rest);
        assert(counts(entries.update(i, entry)) =~= counts(entries).insert(entry.0@, entry.1));
    }
}

impl Tally {
    /// A tally without counts.
    pub fn new() -> (r: Self)
        ensures
            r@ == Map::<Seq<char>, u64>::empty(),
    {
        let r = Tally { entries: Vec::new() };
        assert(r@ =~= Map::<Seq<char>, u64>::empty());
        r
    }

    fn find(&self, day: &str) -> (r: Option<usize>)
        ensures
            match r {
                Some(i) => {
                    &&& i < self.entries@.len()
                    &&& self.entries@[i as int].0@ == day@
                    &&& forall|k: int|
                        i < k < self.entries@.len() ==> (#[trigger] self.entries@[k]).0@ != day@
                },
                None => forall|k: int|
                    0 <= k < self.entries@.len() ==> (#[trigger] self.entries@[k]).0@ != day@,
            },
    {
        let mut i: usize = self.entries.len();
        while i > 0
            invariant
                i <= self.entries@.len(),
                forall|k: int|
                    i <= k < self.entries@.len() ==> (#[trigger] self.entries@[k]).0@ != day@,
            decreases i,
        {
            i -= 1;
            if text::same_text(self.entries[i].0.as_str(), day) {
                return Some(i);
            }
        }
        None
    }

    /// The count of a day; zero where there is none.
    pub fn get(&self, day: &str) -> (r: u64)
        ensures
            r == count_of(self@, day@),
    {
        match self.find(day) {
            Some(i) => {
                proof {
                    lemma_counts(self.entries@, day@, i as int);
                }
                self.entries[i].1
            },
            None => {
                proof {
                    lemma_counts_absent(self.entries@, day@);
                }
                0
            },
        }
    }

    /// Counts `tokens` more on a day.
    pub fn credit(&mut self, day: &str, tokens: u64)
        ensures
            final(self)@ == credited(old(self)@, day@, tokens),
    {
        let count = self.get(day).wrapping_add(tokens);
        match self.find(day) {
            Some(i) => {
                let entry = (day.to_owned(), count);
                proof {
                    lemma_counts_update(self.entries@, i as int, entry);
                }
                self.entries.set(i, entry);
            },
            None => {
                let ghost before = self.entries@;
                self.entries.push((day.to_owned(), count));
                assert(self.entries@.drop_last() =~= before);
            },
        }
    }

    /// The greatest count; zero where there is none.
    pub fn max(&self) -> (r: u64)
        ensures
            is_peak(self@, r),
            r == peak(self@),
    {
        let ghost tally = self@;
        let mut max: u64 = 0;
        let mut i: usize = 0;
        while i < self.entries.len()
            invariant
                i <= self.entries@.len(),
                tally == counts(self.entries@),
                forall|k: int| 0 <= k < i ==> tally[(#[trigger] self.entries@[k]).0@] <= max,
                max == 0 || exists|day: Seq<char>| #[trigger]
                    tally.contains_key(day) && tally[day] == max,
            decreases self.entries@.len() - i,
        {
            let count = self.get(self.entries[i].0.as_str());
            proof {
                lemma_counts_present(self.entries@, i as int);
            }
            if count > max {
                max = count;
                assert(tally.contains_key(self.entries@[i as int].0@));
            }
            i += 1;
        }
        proof {
            assert forall|day: Seq<char>| #[trigger] tally.contains_key(day) implies tally[day]
                <= max by {
                lemma_counts_known(self.entries@, day);
                let k = choose|k: int|
                    0 <= k < self.entries@.len() && (#[trigger] self.entries@[k]).0@ == day;
                assert(tally[self.entries@[k].0@] <= max);
            }
            assert(is_peak(tally, max));
            lemma_peak_unique(tally, max, peak(tally));
        }
        max
    }
}

proof fn lemma_counts_present(entries: Seq<(String, u64)>, i: int)
    requires
        0 <= i < entries.len(),
    ensures
        counts(entries).contains_key(entries[i].0@),
    decreases entries.len(),
{
    if i < entries.len() - 1 {
        lemma_counts_present(entries.drop_last(), i);
    }
}

proof fn lemma_counts_known(entries: Seq<(String, u64)>, day: Seq<char>)
    requires
        counts(entries).contains_key(day),
    ensures
        exists|k: int| 0 <= k < entries.len() && (#[trigger] entries[k]).0@ == day,
    decreases entries.len(),
{
    if entries.len() > 0 {
        if entries.last().0@ == day {
            assert(entries[entries.len() - 1].0@ == day);
        } else {
            let rest = entries.drop_last();
            lemma_counts_known(rest, day);
            let k = choose|k: int| 0 <= k < rest.len() && (#[trigger] rest[k]).0@ == day;
            assert(entries[k].0@ == day);
        }
    }
}

/// A tally counts finitely many days.
pub proof fn lemma_tally_finite(tally: Tally)
    ensures
        tally@.dom().finite(),
{
    lemma_counts_finite(tally.entries@);
}

proof fn lemma_counts_finite(entries: Seq<(String, u64)>)
    ensures
        counts(entries).dom().finite(),
    decreases entries.len(),
{
    if entries.len() > 0 {
        lemma_counts_finite(entries.drop_last());
    }
}

/// A finite tally has a greatest count.
pub proof fn lemma_peak_exists(tally: Map<Seq<char>, u64>)
    requires
        tally.dom().finite(),
    ensures
        is_peak(tally, peak(tally)),
    decreases tally.dom().len(),
{
    if tally.dom().len() == 0 {
        assert(tally.dom() =~= Set::empty());
        assert(is_peak(tally, 0));
    } else {
        let day = tally.dom().choose();
        let rest = tally.remove(day);
        assert(rest.dom() =~= tally.dom().remove(day));
        lemma_peak_exists(rest);
        let max = peak(rest);
        if tally[day] >= max {
            assert forall|d: Seq<char>| #[trigger] tally.contains_key(d) implies tally[d]
                <= tally[day] by {
                if d != day {
                    assert(rest.contains_key(d));
                }
            }
            assert(is_peak(tally, tally[day]));
        } else {
            assert forall|d: Seq<char>| #[trigger] tally.contains_key(d) implies tally[d] <= max by {
                if d != day {
                    assert(rest.contains_key(d));
                }
            }
            let d = choose|d: Seq<char>| #[trigger] rest.contains_key(d) && rest[d] == max;
            assert(tally.contains_key(d) && tally[d] == max);
            assert(is_peak(tally, max));
        }
    }
}

proof fn lemma_peak_unique(tally: Map<Seq<char>, u64>, a: u64, b: u64)
    requires
        is_peak(tally, a),
        is_peak(tally, b),
    ensures
        a == b,
{
}

/// A line without the carriage return at its end.
pub open spec fn without_return(s: Seq<char>) -> Seq<char> {
    if s.len() > 0 && s.last() == '\r' {
        s.drop_last()
    } else {
        s
    }
}

/// The lines of a text, which end in a line feed, or in a carriage return and a line feed; the last
/// one need not.
pub open spec fn lines(s: Seq<char>) -> Seq<Seq<char>>
    decreases s.len(),
{
    let end = text::position(s, '\n');
    if s.len() == 0 {
        seq![]
    } else if end >= s.len() || end < 0 {
        seq![s]
    } else {
        seq![without_return(s.take(end))] + lines(s.skip(end + 1))
    }
}

fn piece(chars: &Vec<char>, from: usize, to: usize) -> (r: String)
    requires
        from <= to <= chars.len(),
    ensures
        r@ == chars@.subrange(from as int, to as int),
{
    let mut out: String = String::new();
    let mut i: usize = from;
    while i < to
        invariant
            from <= i <= to <= chars.len(),
            out@ == chars@.subrange(from as int, i as int),
        decreases to - i,
    {
        out.push(chars[i]);
        i += 1;
        assert(chars@.subrange(from as int, i as int) =~= chars@.subrange(from as int, i - 1).push(
            chars@[i - 1],
        ));
    }
    out
}

/// Splits a text into its lines.
pub fn split_lines(content: &str) -> (r: Vec<String>)
    ensures
        text::text_list(r@) == lines(content@),
{
    let chars = chars_of(content);
    let ghost all = chars@;
    let mut out: Vec<String> = Vec::new();
    let mut start: usize = 0;
    assert(text::text_list(out@) =~= seq![]);
    assert(all.skip(0) =~= all);
    assert(seq![] + lines(all) =~= lines(all));
    while start < chars.len()
        invariant
            all == chars@,
            all == content@,
            start <= chars.len(),
            lines(all) == text::text_list(out@) + lines(all.skip(start as int)),
        decreases chars.len() - start,
    {
        let ghost rest = all.skip(start as int);
        let ghost before = text::text_list(out@);
        let mut end: usize = start;
        while end < chars.len() && chars[end] != '\n'
            invariant
                all == chars@,
                start <= end <= chars.len(),
                forall|k: int| start <= k < end ==> all[k] != '\n',
            decreases chars.len() - end,
        {
            end += 1;
        }
        proof {
            text::lemma_position(rest, '\n', end - start);
            assert(rest.take(end - start) =~= all.subrange(start as int, end as int));
        }
        if end == chars.len() {
            let line = piece(&chars, start, end);
            assert(line@ =~= rest);
            assert(lines(rest) =~= seq![rest]);
            out.push(line);
            assert(text::text_list(out@) =~= before.push(rest));
            assert(before + lines(rest) =~= text::text_list(out@));
            assert(lines(all) =~= text::text_list(out@));
            return out;
        }
        let stop: usize = if end > start && chars[end - 1] == '\r' {
            end - 1
        } else {
            end
        };
        let line = piece(&chars, start, stop);
        let ghost view = line@;
        assert(view =~= without_return(rest.take(end - start)));
        assert(rest.skip(end - start + 1) =~= all.skip(end + 1));
        out.push(line);
        assert(text::text_list(out@) =~= before.push(view));
        assert(before + (seq![view] + lines(all.skip(end + 1))) =~= text::text_list(out@) + lines(
            all.skip(end + 1),
        ));
        start = end + 1;
    }
    assert(all.skip(start as int) =~= seq![]);
    assert(lines(all) =~= text::text_list(out@));
    out
}

/// The number of bytes of a character in UTF-8.
pub open spec fn utf8_len(c: char) -> int {
    if (c as int) < 0x80 {
        1
    } else if (c as int) < 0x800 {
        2
    } else if (c as int) < 0x1_0000 {
        3
    } else {
        4
    }
}

/// The first characters of a text that take exactly `bytes` bytes in UTF-8, where there are such.
pub open spec fn byte_prefix(s: Seq<char>, bytes: int) -> Option<Seq<char>>
    decreases s.len(),
{
    if bytes == 0 {
        Some(seq![])
    } else if s.len() == 0 || bytes < 0 {
        None
    } else {
        match byte_prefix(s.drop_first(), bytes - utf8_len(s[0])) {
            Some(rest) => Some(seq![s[0]] + rest),
            None => None,
        }
    }
}

fn char_bytes(c: char) -> (r: usize)
    ensures
        r == utf8_len(c),
        1 <= r <= 4,
{
    let code: u32 = c as u32;
    if code < 0x80 {
        1
    } else if code < 0x800 {
        2
    } else if code < 0x1_0000 {
        3
    } else {
        4
    }
}

/// The first characters of a text that take exactly `bytes` bytes in UTF-8.
pub fn first_bytes(s: &str, bytes: usize) -> (r: Option<String>)
    ensures
        text::opt_view(r) == byte_prefix(s@, bytes as int),
{
    let chars = chars_of(s);
    let ghost all = chars@;
    let mut taken: Vec<char> = Vec::new();
    let mut left: usize = bytes;
    let mut i: usize = 0;
    assert(all.skip(0) =~= all);
    proof {
        if byte_prefix(all, bytes as int) is Some {
            assert(seq![] + byte_prefix(all, bytes as int)->0 =~= byte_prefix(
                all,
                bytes as int,
            )->0);
        }
    }
    while left > 0
        invariant
            all == chars@,
            all == s@,
            i <= chars.len(),
            left <= bytes,
            byte_prefix(all, bytes as int) == (match byte_prefix(all.skip(i as int), left as int) {
                Some(rest) => Some(taken@ + rest),
                None => None,
            }),
        decreases left,
    {
        if i == chars.len() {
            return None;
        }
        let c = chars[i];
        let size: usize = char_bytes(c);
        assert(all.skip(i as int).drop_first() =~= all.skip(i + 1));
        if size > left {
            assert(byte_prefix(all.skip(i + 1), left - size) is None);
            return None;
        }
        proof {
            if byte_prefix(all.skip(i + 1), left - size) is Some {
                let rest = byte_prefix(all.skip(i + 1), left - size)->0;
                assert(taken@ + (seq![c] + rest) =~= taken@.push(c) + rest);
            }
        }
        taken.push(c);
        left = left - size;
        i += 1;
    }
    assert(taken@ + seq![] =~= taken@);
    Some(text_of(&taken))
}

/// A document whose type is a count of tokens.
pub open spec fn counting(tree: Option<JsonTree>) -> Option<JsonTree> {
    match tree {
        Some(t) if usage::string(t.get("type"@)) == Some("token_count"@) => Some(t),
        _ => None,
    }
}

fn counting_of(value: Option<&Json>) -> (r: Option<&Json>)
    ensures
        json::tree_of(r) == counting(json::tree_of(value)),
{
    match value {
        Some(v) => match v.get("type") {
            Some(kind) => match kind.as_str() {
                Some(name) => {
                    if text::same_text(name, "token_count") {
                        Some(v)
                    } else {
                        None
                    }
                },
                None => None,
            },
            None => None,
        },
        None => None,
    }
}

/// The part of an event that counts tokens.
pub open spec fn counting_part(event: JsonTree) -> Option<JsonTree> {
    usage::either(counting(event.get("payload"@)), counting(event.get("event_msg"@)))
}

/// The part that holds the counts: those of the last turn, else the totals, else the part itself.
pub open spec fn token_usage(part: JsonTree) -> JsonTree {
    usage::tree_or(
        usage::either(
            usage::nested(part, "info"@, "last_token_usage"@),
            usage::nested(part, "info"@, "total_token_usage"@),
        ),
        part,
    )
}

/// A count of a document; zero where it has no such integer.
pub open spec fn token_field(tree: JsonTree, key: Seq<char>) -> i64 {
    match usage::integer(tree.get(key)) {
        Some(n) => n,
        None => 0,
    }
}

/// The tokens that an event counts: the sum of its four counts, and zero where that is negative or
/// the event counts none. The sum wraps around at 64 bits.
pub open spec fn event_tokens(event: JsonTree) -> u64 {
    match counting_part(event) {
        Some(part) => {
            let sums = token_usage(part);
            let sum = token_field(sums, "input_tokens"@).wrapping_add(
                token_field(sums, "cached_input_tokens"@),
            ).wrapping_add(token_field(sums, "cache_read_input_tokens"@)).wrapping_add(
                token_field(sums, "output_tokens"@),
            );
            if sum > 0 {
                sum as u64
            } else {
                0
            }
        },
        None => 0,
    }
}

/// A count of a document.
pub fn token_i64(value: &Json, key: &str) -> (r: i64)
    ensures
        r == token_field(value@, key@),
{
    match usage::integer_of(value.get(key)) {
        Some(n) => n,
        None => 0,
    }
}

/// The tokens that an event counts.
pub fn token_count_from_event(json: &Json) -> (r: u64)
    ensures
        r == event_tokens(json@),
{
    let mut found = counting_of(json.get("payload"));
    if found.is_none() {
        found = counting_of(json.get("event_msg"));
    }
    let part = match found {
        Some(v) => v,
        None => {
            return 0;
        },
    };
    let mut counted = usage::nested_of(part, "info", "last_token_usage");
    if counted.is_none() {
        counted = usage::nested_of(part, "info", "total_token_usage");
    }
    let sums = match counted {
        Some(v) => v,
        None => part,
    };
    let sum = token_i64(sums, "input_tokens").wrapping_add(
        token_i64(sums, "cached_input_tokens"),
    ).wrapping_add(token_i64(sums, "cache_read_input_tokens")).wrapping_add(
        token_i64(sums, "output_tokens"),
    );
    if sum > 0 {
        sum as u64
    } else {
        0
    }
}

/// The day of an event: the first ten bytes of its timestamp.
pub open spec fn event_day(event: JsonTree) -> Option<Seq<char>> {
    match usage::string(event.get("timestamp"@)) {
        Some(s) => byte_prefix(s, 10),
        None => None,
    }
}

/// The day and the tokens that an event adds; none where it has no day or counts no token.
pub open spec fn event_credit(event: JsonTree) -> Option<(Seq<char>, u64)> {
    match event_day(event) {
        Some(day) if event_tokens(event) > 0 => Some((day, event_tokens(event))),
        _ => None,
    }
}

/// The tally after a credit, where there is one.
pub open spec fn with_credit(
    tally: Map<Seq<char>, u64>,
    credit: Option<(Seq<char>, u64)>,
) -> Map<Seq<char>, u64> {
    match credit {
        Some((day, tokens)) => credited(tally, day, tokens),
        None => tally,
    }
}

/// What a line of a session log adds: nothing where it does not mention token counts or is no
/// document.
pub open spec fn line_credit(line: Seq<char>) -> Option<(Seq<char>, u64)> {
    if !text::occurs("token_count"@, line) {
        None
    } else {
        match json_text::parsed_tree(line) {
            Some(event) => event_credit(event),
            None => None,
        }
    }
}

/// The tally after the lines of a session log.
pub open spec fn scanned(tally: Map<Seq<char>, u64>, log: Seq<Seq<char>>) -> Map<Seq<char>, u64>
    decreases log.len(),
{
    if log.len() == 0 {
        tally
    } else {
        with_credit(scanned(tally, log.drop_last()), line_credit(log.last()))
    }
}

/// Counts the tokens of an event.
pub fn tally_event(values: &mut Tally, event: &Json)
    ensures
        final(values)@ == with_credit(old(values)@, event_credit(event@)),
{
    let day = match usage::string_of(event.get("timestamp")) {
        Some(timestamp) => first_bytes(timestamp, 10),
        None => None,
    };
    if let Some(day) = day {
        let tokens = token_count_from_event(event);
        if tokens > 0 {
            values.credit(day.as_str(), tokens);
        }
    }
}

/// Counts the tokens of the events of a session log.
pub fn scan_session_file(content: &str, values: &mut Tally)
    ensures
        final(values)@ == scanned(old(values)@, lines(content@)),
{
    let log = split_lines(content);
    let ghost all = lines(content@);
    let ghost first = values@;
    let mut i: usize = 0;
    assert(all.take(0) =~= seq![]);
    while i < log.len()
        invariant
            all == text::text_list(log@),
            i <= log.len(),
            values@ == scanned(first, all.take(i as int)),
        decreases log.len() - i,
    {
        let line = &log[i];
        assert(all.take(i + 1).drop_last() =~= all.take(i as int));
        assert(all[i as int] == line@);
        if contains_text(line.as_str(), "token_count") {
            if let Some(event) = parse_json(line.as_str()) {
                tally_event(values, &event);
            }
        }
        i += 1;
    }
    assert(all.take(i as int) =~= all);
}

/// Law: the tokens of an event rest on its payload alone, whatever else it holds.
pub proof fn law_only_payload_counts(a: JsonTree, b: JsonTree)
    requires
        a.get("payload"@) == b.get("payload"@),
        a.get("event_msg"@) == b.get("event_msg"@),
    ensures
        event_tokens(a) == event_tokens(b),
{
}

/// The sum of the four counts of a document.
pub open spec fn count_sum(sums: JsonTree) -> int {
    token_field(sums, "input_tokens"@) + token_field(sums, "cached_input_tokens"@) + token_field(
        sums,
        "cache_read_input_tokens"@,
    ) + token_field(sums, "output_tokens"@)
}

/// Law: where the sum of the four counts fits 64 signed bits, an event that counts tokens counts
/// that sum, and none where it is negative.
pub proof fn law_tokens_are_the_sum(event: JsonTree)
    requires
        counting_part(event) is Some,
        i64::MIN <= count_sum(token_usage(counting_part(event)->0)) <= i64::MAX,
    ensures
        ({
            let sum = count_sum(token_usage(counting_part(event)->0));
            event_tokens(event) == if sum > 0 {
                sum
            } else {
                0
            }
        }),
{
}

proof fn lemma_credits_commute(
    tally: Map<Seq<char>, u64>,
    a: Option<(Seq<char>, u64)>,
    b: Option<(Seq<char>, u64)>,
)
    ensures
        with_credit(with_credit(tally, a), b) == with_credit(with_credit(tally, b), a),
{
    assert(with_credit(with_credit(tally, a), b) =~= with_credit(with_credit(tally, b), a));
}

proof fn lemma_line_commutes(
    tally: Map<Seq<char>, u64>,
    log: Seq<Seq<char>>,
    credit: Option<(Seq<char>, u64)>,
)
    ensures
        scanned(with_credit(tally, credit), log) == with_credit(scanned(tally, log), credit),
    decreases log.len(),
{
    if log.len() > 0 {
        lemma_line_commutes(tally, log.drop_last(), credit);
        lemma_credits_commute(scanned(tally, log.drop_last()), credit, line_credit(log.last()));
    }
}

/// Law: the order in which two session logs are read does not matter.
pub proof fn law_order_of_logs(tally: Map<Seq<char>, u64>, a: Seq<Seq<char>>, b: Seq<Seq<char>>)
    ensures
        scanned(scanned(tally, a), b) == scanned(scanned(tally, b), a),
    decreases a.len(),
{
    if a.len() > 0 {
        law_order_of_logs(tally, a.drop_last(), b);
        lemma_line_commutes(scanned(tally, a.drop_last()), b, line_credit(a.last()));
    }
}

/// The tokens that a credit adds to a day.
pub open spec fn credit_on(credit: Option<(Seq<char>, u64)>, day: Seq<char>) -> int {
    match credit {
        Some((d, tokens)) if d == day => tokens as int,
        _ => 0,
    }
}

/// The tokens that the lines of a session log add to a day.
pub open spec fn tokens_on(log: Seq<Seq<char>>, day: Seq<char>) -> int
    decreases log.len(),
{
    if log.len() == 0 {
        0
    } else {
        tokens_on(log.drop_last(), day) + credit_on(line_credit(log.last()), day)
    }
}

/// Law: a session log adds to each day the sum of the tokens of its events on that day. The sum
/// wraps around at 64 bits.
pub proof fn law_days_add_up(tally: Map<Seq<char>, u64>, log: Seq<Seq<char>>, day: Seq<char>)
    ensures
        count_of(scanned(tally, log), day) == (count_of(tally, day) + tokens_on(log, day))
            % 0x1_0000_0000_0000_0000,
    decreases log.len(),
{
    if log.len() > 0 {
        law_days_add_up(tally, log.drop_last(), day);
    }
}

/// Law: two session logs count like one that holds the lines of both.
pub proof fn law_logs_join(tally: Map<Seq<char>, u64>, a: Seq<Seq<char>>, b: Seq<Seq<char>>)
    ensures
        scanned(scanned(tally, a), b) == scanned(tally, a + b),
    decreases b.len(),
{
    if b.len() == 0 {
        assert(a + b =~= a);
    } else {
        law_logs_join(tally, a, b.drop_last());
        assert((a + b).drop_last() =~= a + b.drop_last());
    }
}

/// The count that a document gives under a name: the integer there, and zero where it gives none or
/// one that does not fit 64 signed bits.
pub open spec fn counts_as(tree: JsonTree, key: Seq<char>, n: int) -> bool {
    match tree.get(key) {
        Some(JsonTree::Number(json::JsonNumber::PosInt(k))) => n == (if k <= i64::MAX {
            k as int
        } else {
            0
        }),
        Some(JsonTree::Number(json::JsonNumber::NegInt(k))) => n == k,
        _ => n == 0,
    }
}

/// `part` is the part of an event that counts tokens: its `payload` where that is of the type
/// `token_count`, and else its `event_msg` where that is.
pub open spec fn is_counting_part(event: JsonTree, part: JsonTree) -> bool {
    let own = event.get("payload"@) is Some && event.get("payload"@)->0.get("type"@) == Some(
        JsonTree::Text("token_count"@),
    );
    &&& part.get("type"@) == Some(JsonTree::Text("token_count"@))
    &&& event.get("payload"@) == Some(part) || (!own && event.get("event_msg"@) == Some(part))
}

/// `sums` holds the counts of a part that counts tokens: those of the last turn in its `info`, where
/// they are missing the totals in its `info`, and where they are missing too the part itself.
pub open spec fn holds_counts(part: JsonTree, sums: JsonTree) -> bool {
    let info = part.get("info"@);
    let last = info is Some && info->0.get("last_token_usage"@) is Some;
    let total = info is Some && info->0.get("total_token_usage"@) is Some;
    ||| last && sums == info->0.get("last_token_usage"@)->0
    ||| !last && total && sums == info->0.get("total_token_usage"@)->0
    ||| !last && !total && sums == part
}

/// Law: an event counts the sum of its input tokens, both kinds of cached input tokens and output
/// tokens: those of the last turn where it gives them, whatever the totals of the session are.
pub proof fn law_event_counts(
    event: JsonTree,
    part: JsonTree,
    sums: JsonTree,
    input: int,
    cached: int,
    cache_read: int,
    output: int,
)
    requires
        is_counting_part(event, part),
        holds_counts(part, sums),
        counts_as(sums, "input_tokens"@, input),
        counts_as(sums, "cached_input_tokens"@, cached),
        counts_as(sums, "cache_read_input_tokens"@, cache_read),
        counts_as(sums, "output_tokens"@, output),
        i64::MIN <= input + cached + cache_read + output <= i64::MAX,
    ensures
        input + cached + cache_read + output >= 0 ==> event_tokens(event) == input + cached
            + cache_read + output,
        input + cached + cache_read + output < 0 ==> event_tokens(event) == 0,
{
    assert(counting_part(event) == Some(part));
    assert(token_usage(part) == sums);
    assert(token_field(sums, "input_tokens"@) == input);
    assert(token_field(sums, "cached_input_tokens"@) == cached);
    assert(token_field(sums, "cache_read_input_tokens"@) == cache_read);
    assert(token_field(sums, "output_tokens"@) == output);
    law_tokens_are_the_sum(event);
}

/// Law: two events that count tokens and agree on the counts of the last turn count the same,
/// whatever the totals of their sessions are.
pub proof fn law_totals_do_not_count(a: JsonTree, b: JsonTree, pa: JsonTree, pb: JsonTree)
    requires
        is_counting_part(a, pa),
        is_counting_part(b, pb),
        pa.get("info"@) is Some,
        pb.get("info"@) is Some,
        pa.get("info"@)->0.get("last_token_usage"@) is Some,
        pa.get("info"@)->0.get("last_token_usage"@) == pb.get("info"@)->0.get(
            "last_token_usage"@,
        ),
    ensures
        event_tokens(a) == event_tokens(b),
{
}

/// Law: an event of which neither the `payload` nor the `event_msg` is of the type `token_count`
/// counts no tokens.
pub proof fn law_other_events_count_nothing(event: JsonTree)
    requires
        event.get("payload"@) is Some ==> event.get("payload"@)->0.get("type"@) != Some(
            JsonTree::Text("token_count"@),
        ),
        event.get("event_msg"@) is Some ==> event.get("event_msg"@)->0.get("type"@) != Some(
            JsonTree::Text("token_count"@),
        ),
    ensures
        event_tokens(event) == 0,
        event_credit(event) is None,
{
}

proof fn lemma_ascii_prefix(s: Seq<char>, bytes: int)
    requires
        0 <= bytes,
        forall|i: int| 0 <= i < s.len() && i < bytes ==> (#[trigger] s[i] as int) < 0x80,
    ensures
        bytes <= s.len() ==> byte_prefix(s, bytes) == Some(s.take(bytes)),
        bytes > s.len() ==> byte_prefix(s, bytes) is None,
    decreases s.len(),
{
    if bytes > 0 && s.len() > 0 {
        let rest = s.drop_first();
        assert((s[0] as int) < 0x80);
        assert forall|i: int| 0 <= i < rest.len() && i < bytes - 1 implies (#[trigger] rest[i] as int)
            < 0x80 by {
            assert((s[i + 1] as int) < 0x80);
        }
        lemma_ascii_prefix(rest, bytes - 1);
        if bytes <= s.len() {
            assert(seq![s[0]] + rest.take(bytes - 1) =~= s.take(bytes));
        }
    } else if bytes == 0 {
        assert(s.take(0) =~= seq![]);
    }
}

/// Law: an event falls on the day that the first ten characters of its timestamp name, where these are
/// ASCII; without a timestamp of that length it falls on no day.
pub proof fn law_day_of_event(event: JsonTree, s: Seq<char>)
    requires
        event.get("timestamp"@) == Some(JsonTree::Text(s)),
        forall|i: int| 0 <= i < s.len() && i < 10 ==> (#[trigger] s[i] as int) < 0x80,
    ensures
        s.len() >= 10 ==> event_day(event) == Some(s.take(10)),
        s.len() < 10 ==> event_day(event) is None,
{
    lemma_ascii_prefix(s, 10);
}

/// Law: an event without a text as its timestamp falls on no day and adds nothing.
pub proof fn law_event_without_day(event: JsonTree)
    requires
        event.get("timestamp"@) is Some ==> !(event.get("timestamp"@)->0 is Text),
    ensures
        event_day(event) is None,
        event_credit(event) is None,
{
}

/// Law: a line adds the tokens of its event to the day of its event, where it mentions token counts
/// and counts any; every other line adds nothing.
pub proof fn law_line_adds_its_event(line: Seq<char>, event: JsonTree, day: Seq<char>)
    ensures
        text::occurs("token_count"@, line) && json_text::parsed_tree(line) == Some(event)
            && event_day(event) == Some(day) && event_tokens(event) > 0 ==> line_credit(line)
            == Some((day, event_tokens(event))),
        text::occurs("token_count"@, line) && json_text::parsed_tree(line) == Some(event) && (
        event_day(event) is None || event_tokens(event) == 0) ==> line_credit(line) is None,
        !text::occurs("token_count"@, line) ==> line_credit(line) is None,
        json_text::parsed_tree(line) is None ==> line_credit(line) is None,
{
}

/// Law: a credit adds its tokens to its own day, wrapping around at 64 bits, and changes no other.
pub proof fn law_credit_of_a_day(
    tally: Map<Seq<char>, u64>,
    day: Seq<char>,
    other: Seq<char>,
    tokens: u64,
)
    requires
        other != day,
    ensures
        ({
            let after = credited(tally, day, tokens);
            let before = if tally.contains_key(day) {
                tally[day] as int
            } else {
                0
            };
            &&& after.contains_key(day)
            &&& after[day] == (before + tokens) % 0x1_0000_0000_0000_0000
            &&& after.contains_key(other) == tally.contains_key(other)
            &&& tally.contains_key(other) ==> after[other] == tally[other]
            &&& with_credit(tally, Some((day, tokens))) == after
            &&& with_credit(tally, None) == tally
            &&& count_of(after, day) == after[day]
        }),
{
}

/// Law: no day counts more than the greatest count, and unless it is zero some day counts as many.
pub proof fn law_peak(values: Tally, day: Seq<char>)
    ensures
        values@.contains_key(day) ==> values@[day] <= peak(values@),
        peak(values@) > 0 ==> exists|d: Seq<char>|
            #[trigger] values@.contains_key(d) && values@[d] == peak(values@),
{
    lemma_tally_finite(values);
    lemma_peak_exists(values@);
}

/// Law: what stands before the first line feed of a text is its first line, without one carriage return
/// at its end, and the other lines are those of the rest; a text without a line feed is one line as it
/// stands.
pub proof fn law_lines(first: Seq<char>, rest: Seq<char>)
    requires
        forall|i: int| 0 <= i < first.len() ==> #[trigger] first[i] != '\n',
    ensures
        first.len() > 0 ==> lines(first) == seq![first],
        first.len() == 0 ==> lines(first).len() == 0,
        first.len() > 0 && first.last() == '\r' ==> lines(first + seq!['\n'] + rest) == seq![
            first.drop_last(),
        ] + lines(rest),
        first.len() == 0 || first.last() != '\r' ==> lines(first + seq!['\n'] + rest) == seq![first]
            + lines(rest),
{
    let s = first + seq!['\n'] + rest;
    text::lemma_position(first, '\n', first.len() as int);
    assert forall|k: int| 0 <= k < first.len() implies #[trigger] s[k] != '\n' by {
        assert(s[k] == first[k]);
    }
    assert(s[first.len() as int] == '\n');
    text::lemma_position(s, '\n', first.len() as int);
    assert(s.take(first.len() as int) =~= first);
    assert(s.skip(first.len() + 1int) =~= rest);
}

/// The number of bytes of a text in UTF-8.
pub open spec fn utf8_size(s: Seq<char>) -> int
    decreases s.len(),
{
    if s.len() == 0 {
        0
    } else {
        utf8_len(s[0]) + utf8_size(s.drop_first())
    }
}

/// Law: the first bytes of a text, as many as its beginning takes, are that beginning.
pub proof fn law_first_bytes(start: Seq<char>, rest: Seq<char>)
    ensures
        byte_prefix(start + rest, utf8_size(start)) == Some(start),
        utf8_size(start) >= start.len(),
    decreases start.len(),
{
    if start.len() == 0 {
        assert(start =~= seq![]);
    } else {
        let tail = start.drop_first();
        law_first_bytes(tail, rest);
        assert((start + rest).drop_first() =~= tail + rest);
        assert(seq![start[0]] + tail =~= start);
    }
}

/// Law: first bytes that end inside a character, or go beyond the end of a text, are none.
pub proof fn law_no_first_bytes(s: Seq<char>, bytes: int)
    requires
        bytes >= 0,
        forall|n: int| 0 <= n <= s.len() ==> utf8_size(#[trigger] s.take(n)) != bytes,
    ensures
        byte_prefix(s, bytes) is None,
    decreases s.len(),
{
    assert(utf8_size(s.take(0)) != bytes);
    assert(s.take(0) =~= seq![]);
    if s.len() > 0 {
        let tail = s.drop_first();
        let left = bytes - utf8_len(s[0]);
        if left >= 0 {
            assert forall|n: int| 0 <= n <= tail.len() implies utf8_size(#[trigger] tail.take(n))
                != left by {
                assert(s.take(n + 1).drop_first() =~= tail.take(n));
                assert(s.take(n + 1)[0] == s[0]);
                assert(utf8_size(s.take(n + 1)) != bytes);
            }
            law_no_first_bytes(tail, left);
        } else {
            assert(byte_prefix(tail, left) is None);
        }
    }
}

} // verus!
