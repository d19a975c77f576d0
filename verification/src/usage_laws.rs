//! What holds of rate limit windows, limits, credits and accounts, field by field of a document.
use crate::json::{self, JsonNumber, JsonTree};
use crate::numeral;
use crate::text::{self, CharClass};
use crate::time::{self, Timestamp};
use crate::usage::{self, RateWindowView, ReadingView};
use vstd::prelude::*;

verus! {

/// `tree` has `t` under the name `a`.
pub open spec fn gives(tree: JsonTree, a: Seq<char>, t: JsonTree) -> bool {
    tree.get(a) == Some(t)
}

/// `tree` has nothing under the name `a`.
pub open spec fn lacks(tree: JsonTree, a: Seq<char>) -> bool {
    tree.get(a) is None
}

/// `tree` has something that is no text under the name `a`.
pub open spec fn no_text(tree: JsonTree, a: Seq<char>) -> bool {
    tree.get(a) is Some && !(tree.get(a)->0 is Text)
}

/// The same data but for the identifier and the title.
pub open spec fn same_data(a: RateWindowView, b: RateWindowView) -> bool {
    &&& a.used_percent == b.used_percent
    &&& a.window_minutes == b.window_minutes
    &&& a.reset_at == b.reset_at
    &&& a.reset_description == b.reset_description
}

/// Law: a number is its own quantity.
pub proof fn law_number_is_its_quantity(n: JsonNumber)
    ensures
        usage::quantity_or_zero(Some(JsonTree::Number(n))) == ReadingView::Number(n),
        usage::quantity(JsonTree::Number(n)) == Some(ReadingView::Number(n)),
{
}

/// Law: a text is the quantity that it reads as, whatever white space surrounds it, and zero where it
/// reads as no number.
pub proof fn law_text_is_its_quantity(before: Seq<char>, core: Seq<char>, after: Seq<char>)
    requires
        text::all_of(before, CharClass::WhiteSpace),
        text::all_of(after, CharClass::WhiteSpace),
        core.len() > 0 ==> !CharClass::WhiteSpace.holds(core.first())
            && !CharClass::WhiteSpace.holds(core.last()),
    ensures
        numeral::number_text(core) ==> usage::quantity_or_zero(
            Some(JsonTree::Text(before + core + after)),
        ) == ReadingView::Text(core),
        !numeral::number_text(core) ==> usage::quantity_or_zero(
            Some(JsonTree::Text(before + core + after)),
        ) == ReadingView::Zero,
        !numeral::number_text(core) ==> usage::quantity(
            JsonTree::Text(before + core + after),
        ) is None,
{
    text::law_strip(before, core, after, CharClass::WhiteSpace);
}

/// Law: what is neither a number nor a text is no quantity, and counts as zero.
pub proof fn law_no_quantity(tree: JsonTree)
    requires
        !(tree is Number),
        !(tree is Text),
    ensures
        usage::quantity(tree) is None,
        usage::quantity_or_zero(Some(tree)) == ReadingView::Zero,
        usage::quantity_or_zero(None) == ReadingView::Zero,
{
}

/// Law: a window keeps the identifier and the title that it is given, and the rest of it does not
/// depend on them.
pub proof fn law_window_keeps_its_name(
    id: Seq<char>,
    title: Seq<char>,
    other_id: Seq<char>,
    other_title: Seq<char>,
    tree: JsonTree,
    now: Timestamp,
)
    ensures
        usage::window(id, title, tree, now).id == id,
        usage::window(id, title, tree, now).title == title,
        same_data(
            usage::window(id, title, tree, now),
            usage::window(other_id, other_title, tree, now),
        ),
{
}

/// Law: the used share of a window is the quantity under `used_percent`, where that is missing under
/// `usedPercent`, then `usage_percent`, then `usagePercent`, and zero where all are missing.
pub proof fn law_used_percent(
    id: Seq<char>,
    title: Seq<char>,
    tree: JsonTree,
    now: Timestamp,
    t: JsonTree,
    n: JsonNumber,
)
    ensures
        ({
            let used = usage::window(id, title, tree, now).used_percent;
            let first = lacks(tree, "used_percent"@);
            let second = first && lacks(tree, "usedPercent"@);
            let third = second && lacks(tree, "usage_percent"@);
            let fourth = third && lacks(tree, "usagePercent"@);
            let given = {
                ||| gives(tree, "used_percent"@, t)
                ||| first && gives(tree, "usedPercent"@, t)
                ||| second && gives(tree, "usage_percent"@, t)
                ||| third && gives(tree, "usagePercent"@, t)
            };
            &&& given ==> used == usage::quantity_or_zero(Some(t))
            &&& given && t == JsonTree::Number(n) ==> used == ReadingView::Number(n)
            &&& given && !(t is Number) && !(t is Text) ==> used == ReadingView::Zero
            &&& fourth ==> used == ReadingView::Zero
        }),
{
}

/// Law: a length in whole seconds under `limit_window_seconds` counts before any in minutes, and is
/// the whole minutes in it.
pub proof fn law_length_from_seconds(
    id: Seq<char>,
    title: Seq<char>,
    tree: JsonTree,
    now: Timestamp,
    n: int,
)
    requires
        i64::MIN <= n <= i64::MAX,
        gives(tree, "limit_window_seconds"@, json::whole(n)),
    ensures
        ({
            let minutes = usage::window(id, title, tree, now).window_minutes;
            &&& minutes is Some
            &&& 0 <= n < 60 * 0x1_0000_0000 ==> minutes->0 * 60 <= n < (minutes->0 + 1) * 60
            &&& n >= 0 ==> (n / 60 - minutes->0) % 0x1_0000_0000 == 0
            &&& n < 0 ==> ((-n) / 60 + minutes->0) % 0x1_0000_0000 == 0
        }),
{
}

/// Law: without a length in seconds, that under `windowDurationMins`, or where this is missing under
/// `window_duration_mins`, is the length in minutes.
pub proof fn law_length_from_minutes(
    id: Seq<char>,
    title: Seq<char>,
    tree: JsonTree,
    now: Timestamp,
    n: int,
)
    requires
        i64::MIN <= n <= i64::MAX,
        lacks(tree, "limit_window_seconds"@) || tree.get(
            "limit_window_seconds"@,
        )->0.as_i64() is None,
        gives(tree, "windowDurationMins"@, json::whole(n)) || (lacks(tree, "windowDurationMins"@)
            && gives(tree, "window_duration_mins"@, json::whole(n))),
    ensures
        ({
            let minutes = usage::window(id, title, tree, now).window_minutes;
            &&& minutes is Some
            &&& 0 <= n <= u32::MAX ==> minutes->0 == n
            &&& (n - minutes->0) % 0x1_0000_0000 == 0
        }),
{
}

/// Law: a window without a length in seconds, of which the first length in minutes is missing or no
/// integer, has no length.
pub proof fn law_no_length(id: Seq<char>, title: Seq<char>, tree: JsonTree, now: Timestamp)
    requires
        lacks(tree, "limit_window_seconds"@) || tree.get(
            "limit_window_seconds"@,
        )->0.as_i64() is None,
        ({
            ||| tree.get("windowDurationMins"@) is Some && tree.get(
                "windowDurationMins"@,
            )->0.as_i64() is None
            ||| lacks(tree, "windowDurationMins"@) && tree.get(
                "window_duration_mins"@,
            ) is Some && tree.get("window_duration_mins"@)->0.as_i64() is None
            ||| lacks(tree, "windowDurationMins"@) && lacks(tree, "window_duration_mins"@)
        }),
    ensures
        usage::window(id, title, tree, now).window_minutes is None,
{
}

/// Law: a reset given in whole seconds that `chrono` can represent, under `reset_at`, where that is
/// missing under `resetsAt`, and where that is missing too under `resetAt`, is the instant that many
/// seconds after the Unix epoch, and the countdown is that from now to it.
pub proof fn law_reset_in_seconds(
    id: Seq<char>,
    title: Seq<char>,
    tree: JsonTree,
    now: Timestamp,
    n: i64,
)
    requires
        time::MIN_SECS <= n <= time::MAX_SECS,
        ({
            ||| gives(tree, "reset_at"@, json::whole(n as int))
            ||| lacks(tree, "reset_at"@) && gives(tree, "resetsAt"@, json::whole(n as int))
            ||| lacks(tree, "reset_at"@) && lacks(tree, "resetsAt"@) && gives(
                tree,
                "resetAt"@,
                json::whole(n as int),
            )
        }),
    ensures
        ({
            let w = usage::window(id, title, tree, now);
            let reset = Timestamp { secs: n, nanos: 0 };
            &&& w.reset_at == Some(reset)
            &&& w.reset_description == Some(time::countdown(time::seconds_between(reset, now)))
        }),
{
}

/// Law: a reset given as a text under `resetsAt`, or where that is missing under `resetAt`, is the
/// instant that the text names, unless `reset_at` gives whole seconds that `chrono` can represent.
pub proof fn law_reset_in_text(
    id: Seq<char>,
    title: Seq<char>,
    tree: JsonTree,
    now: Timestamp,
    s: Seq<char>,
    n: i64,
)
    requires
        ({
            ||| lacks(tree, "reset_at"@)
            ||| tree.get("reset_at"@) is Some && tree.get("reset_at"@)->0.as_i64() is None
            ||| gives(tree, "reset_at"@, json::whole(n as int)) && !(time::MIN_SECS <= n
                <= time::MAX_SECS)
        }),
        gives(tree, "resetsAt"@, JsonTree::Text(s)) || (lacks(tree, "resetsAt"@) && gives(
            tree,
            "resetAt"@,
            JsonTree::Text(s),
        )),
    ensures
        usage::window(id, title, tree, now).reset_at == time::rfc3339_instant(s),
{
}

/// Law: a window of which the first reset is no integer that `chrono` can represent, and which has no
/// text under `resetsAt`, or where this is missing under `resetAt`, has no reset.
pub proof fn law_no_reset(
    id: Seq<char>,
    title: Seq<char>,
    tree: JsonTree,
    now: Timestamp,
    first: JsonTree,
    n: i64,
)
    requires
        ({
            ||| gives(tree, "reset_at"@, first)
            ||| lacks(tree, "reset_at"@) && gives(tree, "resetsAt"@, first)
            ||| lacks(tree, "reset_at"@) && lacks(tree, "resetsAt"@) && gives(
                tree,
                "resetAt"@,
                first,
            )
        }),
        first.as_i64() is None || (first == json::whole(n as int) && !(time::MIN_SECS <= n
            <= time::MAX_SECS)),
        no_text(tree, "resetsAt"@) || (lacks(tree, "resetsAt"@) && (lacks(tree, "resetAt"@)
            || no_text(tree, "resetAt"@))),
    ensures
        usage::window(id, title, tree, now).reset_at is None,
        usage::window(id, title, tree, now).reset_description is None,
{
}

/// Law: a window that gives no reset has none, and there is a countdown exactly where there is a
/// reset: that from now to it.
pub proof fn law_countdown_of_reset(
    id: Seq<char>,
    title: Seq<char>,
    tree: JsonTree,
    now: Timestamp,
    reset: Timestamp,
)
    ensures
        ({
            let w = usage::window(id, title, tree, now);
            &&& lacks(tree, "reset_at"@) && lacks(tree, "resetsAt"@) && lacks(tree, "resetAt"@)
                ==> w.reset_at is None
            &&& w.reset_at is None ==> w.reset_description is None
            &&& w.reset_at == Some(reset) ==> w.reset_description == Some(
                time::countdown(time::seconds_between(reset, now)),
            )
        }),
{
}

/// Law: two documents that agree on the ten fields that a window is read from describe the same window,
/// whatever else they hold.
pub proof fn law_windows_agree(
    id: Seq<char>,
    title: Seq<char>,
    a: JsonTree,
    b: JsonTree,
    now: Timestamp,
)
    requires
        a.get("used_percent"@) == b.get("used_percent"@),
        a.get("usedPercent"@) == b.get("usedPercent"@),
        a.get("usage_percent"@) == b.get("usage_percent"@),
        a.get("usagePercent"@) == b.get("usagePercent"@),
        a.get("limit_window_seconds"@) == b.get("limit_window_seconds"@),
        a.get("windowDurationMins"@) == b.get("windowDurationMins"@),
        a.get("window_duration_mins"@) == b.get("window_duration_mins"@),
        a.get("reset_at"@) == b.get("reset_at"@),
        a.get("resetsAt"@) == b.get("resetsAt"@),
        a.get("resetAt"@) == b.get("resetAt"@),
    ensures
        usage::window(id, title, a, now) == usage::window(id, title, b, now),
{
}

/// `holder` is where the windows of an additional limit stand: under `rate_limit`, where that is
/// missing under `rateLimit`, and where that is missing too in the limit itself.
pub open spec fn holds_windows(entry: JsonTree, holder: JsonTree) -> bool {
    ||| gives(entry, "rate_limit"@, holder)
    ||| lacks(entry, "rate_limit"@) && gives(entry, "rateLimit"@, holder)
    ||| lacks(entry, "rate_limit"@) && lacks(entry, "rateLimit"@) && holder == entry
}

/// Law: the window shown of an additional limit has the data of its primary window, and of the
/// secondary one only where there is no primary one; an empty window is not shown.
pub proof fn law_additional_limit_data(
    entry: JsonTree,
    holder: JsonTree,
    part: JsonTree,
    now: Timestamp,
)
    requires
        holds_windows(entry, holder),
        ({
            ||| gives(holder, "primary_window"@, part)
            ||| lacks(holder, "primary_window"@) && gives(holder, "primary"@, part)
            ||| lacks(holder, "primary_window"@) && lacks(holder, "primary"@) && gives(
                holder,
                "secondary_window"@,
                part,
            )
            ||| lacks(holder, "primary_window"@) && lacks(holder, "primary"@) && lacks(
                holder,
                "secondary_window"@,
            ) && gives(holder, "secondary"@, part)
        }),
    ensures
        part == JsonTree::Object(seq![]) ==> usage::additional_limit(entry, now) is None,
        part != JsonTree::Object(seq![]) ==> usage::additional_limit(entry, now) is Some,
        part != JsonTree::Object(seq![]) ==> same_data(
            usage::additional_limit(entry, now)->0,
            usage::window(seq![], seq![], part, now),
        ),
{
    if let JsonTree::Object(fields) = part {
        if fields.len() == 0 {
            assert(fields =~= seq![]);
        }
    }
}

/// Law: an additional limit without any window is not shown.
pub proof fn law_additional_limit_without_window(
    entry: JsonTree,
    holder: JsonTree,
    now: Timestamp,
)
    requires
        holds_windows(entry, holder),
        lacks(holder, "primary_window"@),
        lacks(holder, "primary"@),
        lacks(holder, "secondary_window"@),
        lacks(holder, "secondary"@),
    ensures
        usage::additional_limit(entry, now) is None,
{
}

/// `name` is the name of an additional limit: the text under `limit_name`, where that is missing under
/// `limitName`, and where that is missing too, or is no text, the name of its feature.
pub open spec fn limit_named(entry: JsonTree, name: Seq<char>) -> bool {
    ||| gives(entry, "limit_name"@, JsonTree::Text(name))
    ||| lacks(entry, "limit_name"@) && gives(entry, "limitName"@, JsonTree::Text(name))
    ||| lacks(entry, "limit_name"@) && lacks(entry, "limitName"@) && feature_named(entry, name)
    ||| no_text(entry, "limit_name"@) && feature_named(entry, name)
    ||| lacks(entry, "limit_name"@) && no_text(entry, "limitName"@) && feature_named(entry, name)
}

/// `name` is the feature of an additional limit: the text under `metered_feature`, where that is
/// missing under `meteredFeature`, and where that is missing too, or is no text, nothing.
pub open spec fn feature_named(entry: JsonTree, name: Seq<char>) -> bool {
    ||| gives(entry, "metered_feature"@, JsonTree::Text(name))
    ||| lacks(entry, "metered_feature"@) && gives(entry, "meteredFeature"@, JsonTree::Text(name))
    ||| name == Seq::<char>::empty() && (no_text(entry, "metered_feature"@) || (lacks(
        entry,
        "metered_feature"@,
    ) && (no_text(entry, "meteredFeature"@) || lacks(entry, "meteredFeature"@))))
}

/// Law: an additional limit that is not one of Codex Spark, neither by its feature nor by its name,
/// has the identifier and the title that its name gives.
pub proof fn law_additional_limit_name(
    entry: JsonTree,
    name: Seq<char>,
    feature: Seq<char>,
    now: Timestamp,
)
    requires
        limit_named(entry, name),
        feature_named(entry, feature),
        text::ascii_lowered(feature) != "codex_spark"@,
        !text::occurs("spark"@, text::ascii_lowered(name)),
        usage::additional_limit(entry, now) is Some,
    ensures
        usage::additional_limit(entry, now)->0.id == "codex-"@ + text::slug(name),
        usage::additional_limit(entry, now)->0.title == text::title(name),
{
    lemma_lower_literals();
}

proof fn lemma_lower_literals()
    ensures
        text::ascii_lowered("codex_spark"@) == "codex_spark"@,
        text::ascii_lowered("codex"@) == "codex"@,
{
    reveal_strlit("codex_spark");
    reveal_strlit("codex");
    assert(text::ascii_lowered("codex_spark"@) =~= "codex_spark"@);
    assert(text::ascii_lowered("codex"@) =~= "codex"@);
}

/// Law: a limit of Codex Spark, by its feature or by a name that mentions it in any case, is the
/// weekly one where its window spans seven days or more or where it has a field `secondary_window`,
/// and else the one of five hours.
pub proof fn law_spark_limits(
    entry: JsonTree,
    holder: JsonTree,
    name: Seq<char>,
    feature: Seq<char>,
    now: Timestamp,
)
    requires
        holds_windows(entry, holder),
        limit_named(entry, name),
        feature_named(entry, feature),
        text::ascii_lowered(feature) == "codex_spark"@ || text::occurs(
            "spark"@,
            text::ascii_lowered(name),
        ),
        usage::additional_limit(entry, now) is Some,
    ensures
        ({
            let w = usage::additional_limit(entry, now)->0;
            let weekly = (w.window_minutes is Some && w.window_minutes->0 >= 7 * 24 * 60) || !lacks(
                holder,
                "secondary_window"@,
            );
            &&& weekly ==> w.id == "codex-spark-weekly"@ && w.title == "Codex Spark Weekly"@
            &&& !weekly ==> w.id == "codex-spark"@ && w.title == "Codex Spark 5-hour"@
        }),
{
    lemma_lower_literals();
}

/// Law: the additional limits of a document are those of the array under `additional_rate_limits`, or
/// where that is missing under `additionalRateLimits`; anything else lists none.
pub proof fn law_additional_limits_listed(tree: JsonTree, items: Seq<JsonTree>, now: Timestamp)
    ensures
        gives(tree, "additional_rate_limits"@, JsonTree::Array(items)) ==> usage::additional_windows(
            tree,
            now,
        ) == usage::additional_limits(items, now),
        lacks(tree, "additional_rate_limits"@) && gives(
            tree,
            "additionalRateLimits"@,
            JsonTree::Array(items),
        ) ==> usage::additional_windows(tree, now) == usage::additional_limits(items, now),
        tree.get("additional_rate_limits"@) is Some && !(tree.get(
            "additional_rate_limits"@,
        )->0 is Array) ==> usage::additional_windows(tree, now).len() == 0,
        lacks(tree, "additional_rate_limits"@) && lacks(tree, "additionalRateLimits"@)
            ==> usage::additional_windows(tree, now).len() == 0,
{
}

/// Law: the windows of two lists of additional limits, one after the other, are those of the joined
/// list, and a single limit gives its window alone.
pub proof fn law_additional_limits_join(a: Seq<JsonTree>, b: Seq<JsonTree>, now: Timestamp)
    ensures
        usage::additional_limits(a + b, now) == usage::additional_limits(a, now)
            + usage::additional_limits(b, now),
        a.len() == 1 && usage::additional_limit(a[0], now) is Some ==> usage::additional_limits(
            a,
            now,
        ) == seq![usage::additional_limit(a[0], now)->0],
        a.len() == 1 && usage::additional_limit(a[0], now) is None ==> usage::additional_limits(
            a,
            now,
        ).len() == 0,
    decreases b.len(),
{
    if b.len() == 0 {
        assert(a + b =~= a);
        assert(usage::additional_limits(a, now) + usage::additional_limits(b, now)
            =~= usage::additional_limits(a, now));
    } else {
        law_additional_limits_join(a, b.drop_last(), now);
        assert((a + b).drop_last() =~= a + b.drop_last());
        assert(usage::additional_limits(a + b, now) =~= usage::additional_limits(a, now)
            + usage::additional_limits(b, now));
    }
    if a.len() == 1 {
        assert(a.drop_last() =~= seq![]);
        assert(usage::additional_limits(a.drop_last(), now) =~= seq![]);
        if usage::additional_limit(a[0], now) is Some {
            assert(usage::additional_limits(a, now) =~= seq![
                usage::additional_limit(a[0], now)->0,
            ]);
        }
    }
}

/// Law: the window shown of a limit listed by identifier has the data of its primary window, whatever
/// its secondary one holds; the others count only where the ones before them are missing, in the order
/// `primary`, `secondary`, `primary_window`, `secondary_window`, and the limit itself where all are.
pub proof fn law_limit_by_id_data(
    id: Seq<char>,
    tree: JsonTree,
    part: JsonTree,
    now: Timestamp,
)
    requires
        text::ascii_lowered(id) != "codex"@,
        ({
            let first = lacks(tree, "primary"@);
            let second = first && lacks(tree, "secondary"@);
            let third = second && lacks(tree, "primary_window"@);
            ||| gives(tree, "primary"@, part)
            ||| first && gives(tree, "secondary"@, part)
            ||| second && gives(tree, "primary_window"@, part)
            ||| third && gives(tree, "secondary_window"@, part)
            ||| third && lacks(tree, "secondary_window"@) && part == tree
        }),
    ensures
        part == JsonTree::Object(seq![]) ==> usage::limit_by_id(id, tree, now) is None,
        part != JsonTree::Object(seq![]) ==> ({
            &&& usage::limit_by_id(id, tree, now) is Some
            &&& usage::limit_by_id(id, tree, now)->0.id == "codex-"@ + text::slug(id)
            &&& same_data(
                usage::limit_by_id(id, tree, now)->0,
                usage::window(seq![], seq![], part, now),
            )
        }),
{
    lemma_lower_literals();
    if let JsonTree::Object(fields) = part {
        if fields.len() == 0 {
            assert(fields =~= seq![]);
        }
    }
}

/// Law: two limits with the same identifier, names and primary window are shown alike.
pub proof fn law_secondary_does_not_show(
    id: Seq<char>,
    a: JsonTree,
    b: JsonTree,
    now: Timestamp,
)
    requires
        !lacks(a, "primary"@),
        a.get("primary"@) == b.get("primary"@),
        a.get("limitName"@) == b.get("limitName"@),
        a.get("limit_name"@) == b.get("limit_name"@),
    ensures
        usage::limit_by_id(id, a, now) == usage::limit_by_id(id, b, now),
{
}

/// Law: a limit listed by identifier has the title that its name gives: the text under `limitName`, or
/// where that is missing under `limit_name`, and where that is missing too its identifier.
pub proof fn law_limit_by_id_title(id: Seq<char>, tree: JsonTree, name: Seq<char>, now: Timestamp)
    requires
        ({
            ||| gives(tree, "limitName"@, JsonTree::Text(name))
            ||| lacks(tree, "limitName"@) && gives(tree, "limit_name"@, JsonTree::Text(name))
            ||| lacks(tree, "limitName"@) && lacks(tree, "limit_name"@) && name == id
            ||| no_text(tree, "limitName"@) && name == id
            ||| lacks(tree, "limitName"@) && no_text(tree, "limit_name"@) && name == id
        }),
        usage::limit_by_id(id, tree, now) is Some,
    ensures
        usage::limit_by_id(id, tree, now)->0.title == text::title(name),
{
}

/// Law: Codex itself, in any case, is not listed among the other limits.
pub proof fn law_codex_not_listed(id: Seq<char>, tree: JsonTree, now: Timestamp)
    requires
        text::ascii_lowered(id) == "codex"@,
    ensures
        usage::limit_by_id(id, tree, now) is None,
{
    lemma_lower_literals();
}

/// Law: the limits listed by identifier are those of the object under `rateLimitsByLimitId`, or where
/// that is missing under `rate_limits_by_limit_id`; anything else lists none.
pub proof fn law_limits_by_id_listed(
    tree: JsonTree,
    fields: Seq<(Seq<char>, JsonTree)>,
    now: Timestamp,
)
    ensures
        gives(tree, "rateLimitsByLimitId"@, JsonTree::Object(fields)) ==> usage::windows_by_id(
            tree,
            now,
        ) == usage::limits_by_id(fields, now),
        lacks(tree, "rateLimitsByLimitId"@) && gives(
            tree,
            "rate_limits_by_limit_id"@,
            JsonTree::Object(fields),
        ) ==> usage::windows_by_id(tree, now) == usage::limits_by_id(fields, now),
        tree.get("rateLimitsByLimitId"@) is Some && !(tree.get(
            "rateLimitsByLimitId"@,
        )->0 is Object) ==> usage::windows_by_id(tree, now).len() == 0,
        lacks(tree, "rateLimitsByLimitId"@) && lacks(tree, "rate_limits_by_limit_id"@)
            ==> usage::windows_by_id(tree, now).len() == 0,
{
}

/// Law: the windows of two listings by identifier, one after the other, are those of the joined
/// listing, and a single limit gives its window alone.
pub proof fn law_limits_by_id_join(
    a: Seq<(Seq<char>, JsonTree)>,
    b: Seq<(Seq<char>, JsonTree)>,
    now: Timestamp,
)
    ensures
        usage::limits_by_id(a + b, now) == usage::limits_by_id(a, now) + usage::limits_by_id(
            b,
            now,
        ),
        a.len() == 1 && usage::limit_by_id(a[0].0, a[0].1, now) is Some ==> usage::limits_by_id(
            a,
            now,
        ) == seq![usage::limit_by_id(a[0].0, a[0].1, now)->0],
        a.len() == 1 && usage::limit_by_id(a[0].0, a[0].1, now) is None ==> usage::limits_by_id(
            a,
            now,
        ).len() == 0,
    decreases b.len(),
{
    if b.len() == 0 {
        assert(a + b =~= a);
        assert(usage::limits_by_id(a, now) + usage::limits_by_id(b, now) =~= usage::limits_by_id(
            a,
            now,
        ));
    } else {
        law_limits_by_id_join(a, b.drop_last(), now);
        assert((a + b).drop_last() =~= a + b.drop_last());
        assert(usage::limits_by_id(a + b, now) =~= usage::limits_by_id(a, now)
            + usage::limits_by_id(b, now));
    }
    if a.len() == 1 {
        assert(a.drop_last() =~= seq![]);
        assert(usage::limits_by_id(a.drop_last(), now) =~= seq![]);
        if usage::limit_by_id(a[0].0, a[0].1, now) is Some {
            assert(usage::limits_by_id(a, now) =~= seq![
                usage::limit_by_id(a[0].0, a[0].1, now)->0,
            ]);
        }
    }
}

/// Law: a window joins a list without repeated identifiers exactly where none before it has its
/// identifier.
pub proof fn law_deduped_grows(ws: Seq<RateWindowView>, w: RateWindowView)
    ensures
        (exists|i: int| 0 <= i < ws.len() && (#[trigger] ws[i]).id == w.id) ==> usage::deduped(
            ws.push(w),
        ) == usage::deduped(ws),
        (forall|i: int| 0 <= i < ws.len() ==> (#[trigger] ws[i]).id != w.id) ==> usage::deduped(
            ws.push(w),
        ) == usage::deduped(ws).push(w),
{
    assert(ws.push(w).drop_last() =~= ws);
}

/// `part` is where the credits of a document stand: under `credits`, where that is missing under
/// `creditBalance`, and where that is missing too under `credit_balance`.
pub open spec fn holds_credits(tree: JsonTree, part: JsonTree) -> bool {
    ||| gives(tree, "credits"@, part)
    ||| lacks(tree, "credits"@) && gives(tree, "creditBalance"@, part)
    ||| lacks(tree, "credits"@) && lacks(tree, "creditBalance"@) && gives(
        tree,
        "credit_balance"@,
        part,
    )
}

/// Law: credits that a document denies, by a false `has_credits` or where that is missing by a false
/// `hasCredits`, and unlimited ones, are not shown, whatever their balance.
pub proof fn law_denied_credits(tree: JsonTree, part: JsonTree)
    requires
        holds_credits(tree, part),
        ({
            ||| gives(part, "has_credits"@, JsonTree::Bool(false))
            ||| lacks(part, "has_credits"@) && gives(part, "hasCredits"@, JsonTree::Bool(false))
            ||| gives(part, "unlimited"@, JsonTree::Bool(true))
        }),
    ensures
        usage::credits(tree) is None,
{
}

/// Law: credits that are neither denied nor unlimited show the quantity under `balance`, where that is
/// missing under `remaining`, where that is missing too under `remainingBalance`, and zero where all
/// are missing, in dollars.
pub proof fn law_credit_balance(tree: JsonTree, part: JsonTree, t: JsonTree)
    requires
        holds_credits(tree, part),
        !gives(part, "has_credits"@, JsonTree::Bool(false)),
        lacks(part, "has_credits"@) ==> !gives(part, "hasCredits"@, JsonTree::Bool(false)),
        !gives(part, "unlimited"@, JsonTree::Bool(true)),
    ensures
        ({
            let shown = usage::credits(tree);
            let first = lacks(part, "balance"@);
            let second = first && lacks(part, "remaining"@);
            let given = {
                ||| gives(part, "balance"@, t)
                ||| first && gives(part, "remaining"@, t)
                ||| second && gives(part, "remainingBalance"@, t)
            };
            &&& shown is Some
            &&& shown->0.currency == "USD"@
            &&& shown->0.label == "Credits"@
            &&& given ==> shown->0.balance == usage::quantity_or_zero(Some(t))
            &&& given && t is Number ==> shown->0.balance == ReadingView::Number(t->Number_0)
            &&& second && lacks(part, "remainingBalance"@) ==> shown->0.balance
                == ReadingView::Zero
        }),
{
}

/// Law: a document without any of the three names has no credits.
pub proof fn law_no_credits(tree: JsonTree)
    requires
        lacks(tree, "credits"@),
        lacks(tree, "creditBalance"@),
        lacks(tree, "credit_balance"@),
    ensures
        usage::credits(tree) is None,
{
}

/// `tree` has, under the name `outer`, a document that has `t` under the name `inner`.
pub open spec fn gives_inside(
    tree: JsonTree,
    outer: Seq<char>,
    inner: Seq<char>,
    t: JsonTree,
) -> bool {
    tree.get(outer) is Some && gives(tree.get(outer)->0, inner, t)
}

/// `tree` has nothing under the name `inner` of what it has under the name `outer`.
pub open spec fn lacks_inside(tree: JsonTree, outer: Seq<char>, inner: Seq<char>) -> bool {
    tree.get(outer) is Some ==> lacks(tree.get(outer)->0, inner)
}

/// `t` is what an account document has as its e-mail address: under `email`, where that is missing
/// in its `account`, and where that is missing too in its `user`.
pub open spec fn email_of(tree: JsonTree, t: JsonTree) -> bool {
    ||| gives(tree, "email"@, t)
    ||| lacks(tree, "email"@) && gives_inside(tree, "account"@, "email"@, t)
    ||| lacks(tree, "email"@) && lacks_inside(tree, "account"@, "email"@) && gives_inside(
        tree,
        "user"@,
        "email"@,
        t,
    )
}

/// `t` is what an account document has as its plan: under `planType`, where that is missing under
/// `plan_type`, and where that is missing too in its `account`, under the same names.
pub open spec fn plan_of(tree: JsonTree, t: JsonTree) -> bool {
    let outside = lacks(tree, "planType"@) && lacks(tree, "plan_type"@);
    ||| gives(tree, "planType"@, t)
    ||| lacks(tree, "planType"@) && gives(tree, "plan_type"@, t)
    ||| outside && gives_inside(tree, "account"@, "planType"@, t)
    ||| outside && lacks_inside(tree, "account"@, "planType"@) && gives_inside(
        tree,
        "account"@,
        "plan_type"@,
        t,
    )
}

/// A text of white space alone is stripped to nothing, and one with another character is not.
proof fn lemma_blank(s: Seq<char>)
    ensures
        text::all_of(s, CharClass::WhiteSpace) <==> text::stripped(
            s,
            CharClass::WhiteSpace,
        ).len() == 0,
{
    let class = CharClass::WhiteSpace;
    if text::all_of(s, class) {
        let none: Seq<char> = seq![];
        text::law_strip(s, none, none, class);
        assert(s + none + none =~= s);
    } else {
        let (before, after) = text::lemma_strip_parts(s, class);
        if text::stripped(s, class).len() == 0 {
            assert forall|i: int| 0 <= i < s.len() implies class.holds(#[trigger] s[i]) by {
                if i < before.len() {
                    assert(class.holds(before[i]));
                } else {
                    assert(class.holds(after[i - before.len()]));
                }
            }
        }
    }
}

/// Law: the e-mail address and the plan of an account are the texts that its document has for them,
/// as they stand, unless they are blank; what is no text is neither.
pub proof fn law_account_texts(tree: JsonTree, t: JsonTree, s: Seq<char>)
    ensures
        email_of(tree, t) && t == JsonTree::Text(s) && !text::all_of(s, CharClass::WhiteSpace)
            ==> usage::account_email(tree) == Some(s),
        email_of(tree, t) && t == JsonTree::Text(s) && text::all_of(s, CharClass::WhiteSpace)
            ==> usage::account_email(tree) is None,
        email_of(tree, t) && !(t is Text) ==> usage::account_email(tree) is None,
        plan_of(tree, t) && t == JsonTree::Text(s) && !text::all_of(s, CharClass::WhiteSpace)
            ==> usage::account_plan(tree) == Some(s),
        plan_of(tree, t) && t == JsonTree::Text(s) && text::all_of(s, CharClass::WhiteSpace)
            ==> usage::account_plan(tree) is None,
        plan_of(tree, t) && !(t is Text) ==> usage::account_plan(tree) is None,
        lacks(tree, "email"@) && lacks_inside(tree, "account"@, "email"@) && lacks_inside(
            tree,
            "user"@,
            "email"@,
        ) ==> usage::account_email(tree) is None,
        lacks(tree, "planType"@) && lacks(tree, "plan_type"@) && lacks_inside(
            tree,
            "account"@,
            "planType"@,
        ) && lacks_inside(tree, "account"@, "plan_type"@) ==> usage::account_plan(tree) is None,
{
    lemma_blank(s);
}

/// Law: a plan that is not known by name is its own label, and a known one never is.
pub proof fn law_labels_of_plans(plan: Seq<char>)
    ensures
        ({
            let known = plan == "free"@ || plan == "go"@ || plan == "plus"@ || plan == "pro"@ || plan
                == "team"@ || plan == "business"@ || plan == "enterprise"@ || plan == "education"@
                || plan == "edu"@;
            &&& !known ==> usage::label_of_plan(plan) == plan
            &&& known ==> usage::label_of_plan(plan).len() > 2 + plan.len()
        }),
{
    reveal_strlit("free");
    reveal_strlit("go");
    reveal_strlit("plus");
    reveal_strlit("pro");
    reveal_strlit("team");
    reveal_strlit("business");
    reveal_strlit("enterprise");
    reveal_strlit("education");
    reveal_strlit("edu");
    reveal_strlit("ChatGPT Free");
    reveal_strlit("Codex Go");
    reveal_strlit("ChatGPT Plus");
    reveal_strlit("ChatGPT Pro");
    reveal_strlit("ChatGPT Team");
    reveal_strlit("ChatGPT Business");
    reveal_strlit("ChatGPT Enterprise");
    reveal_strlit("ChatGPT Education");
    assert("ChatGPT Free"@.len() == 12 && "Codex Go"@.len() == 8 && "ChatGPT Plus"@.len() == 12);
    assert("ChatGPT Pro"@.len() == 11 && "ChatGPT Team"@.len() == 12);
    assert("ChatGPT Business"@.len() == 16 && "ChatGPT Enterprise"@.len() == 18);
    assert("ChatGPT Education"@.len() == 17);
    assert("free"@.len() == 4 && "go"@.len() == 2 && "plus"@.len() == 4 && "pro"@.len() == 3);
    assert("team"@.len() == 4 && "business"@.len() == 8 && "enterprise"@.len() == 10);
    assert("education"@.len() == 9 && "edu"@.len() == 3);
}

} // verus!
