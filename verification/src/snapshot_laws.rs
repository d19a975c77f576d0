//! What holds of the snapshot of an account, field by field of the documents.
use crate::json::JsonTree;
use crate::snapshot::{self, UsageSnapshot};
use crate::time::Timestamp;
use crate::usage::{self, CostSnapshot, RateWindow, ReadingView};
use crate::usage_laws;
use vstd::prelude::*;

verus! {

/// `part` is where the windows of a document stand: under `rate_limit`, where that is missing under
/// `rateLimits`, and where that is missing too in the document itself.
pub open spec fn holds_limits(tree: JsonTree, part: JsonTree) -> bool {
    ||| usage_laws::gives(tree, "rate_limit"@, part)
    ||| usage_laws::lacks(tree, "rate_limit"@) && usage_laws::gives(tree, "rateLimits"@, part)
    ||| usage_laws::lacks(tree, "rate_limit"@) && usage_laws::lacks(tree, "rateLimits"@) && part
        == tree
}

/// Law: the window of five hours is that under `primary_window` of the limits, or where this is
/// missing under `primary`.
pub proof fn law_primary_of_limits(
    tree: JsonTree,
    part: JsonTree,
    w: JsonTree,
    email: Option<Seq<char>>,
    now: Timestamp,
)
    requires
        holds_limits(tree, part),
        usage_laws::gives(part, "primary_window"@, w) || (usage_laws::lacks(
            part,
            "primary_window"@,
        ) && usage_laws::gives(part, "primary"@, w)),
    ensures
        snapshot::snapshot(tree, email, now).primary == usage::window(
            "codex-primary"@,
            "5小时"@,
            w,
            now,
        ),
{
}

/// Law: the window of seven days is that under `secondary_window` of the limits, or where this is
/// missing under `secondary`.
pub proof fn law_secondary_of_limits(
    tree: JsonTree,
    part: JsonTree,
    w: JsonTree,
    email: Option<Seq<char>>,
    now: Timestamp,
)
    requires
        holds_limits(tree, part),
        usage_laws::gives(part, "secondary_window"@, w) || (usage_laws::lacks(
            part,
            "secondary_window"@,
        ) && usage_laws::gives(part, "secondary"@, w)),
    ensures
        snapshot::snapshot(tree, email, now).secondary == Some(
            usage::window("codex-weekly"@, "7天"@, w, now),
        ),
{
}

/// `items` is the list of windows of a document: the array under `rate_limits`, or where that is
/// missing under `rateLimits`, and else none.
pub open spec fn lists_windows(tree: JsonTree, items: Seq<JsonTree>) -> bool {
    ||| usage_laws::gives(tree, "rate_limits"@, JsonTree::Array(items))
    ||| usage_laws::lacks(tree, "rate_limits"@) && usage_laws::gives(
        tree,
        "rateLimits"@,
        JsonTree::Array(items),
    )
    ||| tree.get("rate_limits"@) is Some && !(tree.get("rate_limits"@)->0 is Array) && items.len()
        == 0
    ||| usage_laws::lacks(tree, "rate_limits"@) && tree.get("rateLimits"@) is Some && !(tree.get(
        "rateLimits"@,
    )->0 is Array) && items.len() == 0
    ||| usage_laws::lacks(tree, "rate_limits"@) && usage_laws::lacks(tree, "rateLimits"@)
        && items.len() == 0
}

/// Law: where the limits do not name the window of five hours, it is the first of the list of windows;
/// without one, only the share under `used_percent`, or where that is missing under `usage_percent`, is
/// known, and zero where that is missing too.
pub proof fn law_primary_without_name(
    tree: JsonTree,
    part: JsonTree,
    items: Seq<JsonTree>,
    t: JsonTree,
    email: Option<Seq<char>>,
    now: Timestamp,
)
    requires
        holds_limits(tree, part),
        usage_laws::lacks(part, "primary_window"@),
        usage_laws::lacks(part, "primary"@),
        lists_windows(tree, items),
    ensures
        ({
            let primary = snapshot::snapshot(tree, email, now).primary;
            let given = usage_laws::gives(tree, "used_percent"@, t) || (usage_laws::lacks(
                tree,
                "used_percent"@,
            ) && usage_laws::gives(tree, "usage_percent"@, t));
            &&& items.len() > 0 ==> primary == usage::window(
                "codex-primary"@,
                "5小时"@,
                items[0],
                now,
            )
            &&& items.len() == 0 ==> primary.id == "codex-primary"@ && primary.title == "Codex"@
                && primary.window_minutes is None && primary.reset_at is None
                && primary.reset_description is None
            &&& items.len() == 0 && given ==> primary.used_percent == usage::quantity_or_zero(
                Some(t),
            )
            &&& items.len() == 0 && usage_laws::lacks(tree, "used_percent"@) && usage_laws::lacks(
                tree,
                "usage_percent"@,
            ) ==> primary.used_percent == ReadingView::Zero
        }),
{
}

/// Law: where the limits do not name the window of seven days, it is the second of the list of
/// windows, and missing where there is none.
pub proof fn law_secondary_without_name(
    tree: JsonTree,
    part: JsonTree,
    items: Seq<JsonTree>,
    email: Option<Seq<char>>,
    now: Timestamp,
)
    requires
        holds_limits(tree, part),
        usage_laws::lacks(part, "secondary_window"@),
        usage_laws::lacks(part, "secondary"@),
        lists_windows(tree, items),
    ensures
        items.len() > 1 ==> snapshot::snapshot(tree, email, now).secondary == Some(
            usage::window("codex-weekly"@, "7天"@, items[1], now),
        ),
        items.len() <= 1 ==> snapshot::snapshot(tree, email, now).secondary is None,
{
}

/// Law: the window of code reviews is that under `code_review_window` of the limits, where this is
/// missing under `codeReview`, where this is missing too under `code_review`, and missing where all
/// are. A document that stands for its own limits has it only beside another window.
pub proof fn law_review_window(
    tree: JsonTree,
    part: JsonTree,
    w: JsonTree,
    email: Option<Seq<char>>,
    now: Timestamp,
)
    requires
        holds_limits(tree, part),
    ensures
        ({
            let shown = snapshot::snapshot(tree, email, now).model_specific;
            let first = usage_laws::lacks(part, "code_review_window"@);
            let second = first && usage_laws::lacks(part, "codeReview"@);
            let given = {
                ||| usage_laws::gives(part, "code_review_window"@, w)
                ||| first && usage_laws::gives(part, "codeReview"@, w)
                ||| second && usage_laws::gives(part, "code_review"@, w)
            };
            let apart = !usage_laws::lacks(tree, "rate_limit"@) || !usage_laws::lacks(
                tree,
                "rateLimits"@,
            );
            let beside = !usage_laws::lacks(tree, "primary"@) || !usage_laws::lacks(
                tree,
                "secondary"@,
            ) || !usage_laws::lacks(tree, "primary_window"@) || !usage_laws::lacks(
                tree,
                "secondary_window"@,
            );
            &&& given && (apart || beside) ==> shown == Some(
                usage::window("codex-code-review"@, "Code Review"@, w, now),
            )
            &&& second && usage_laws::lacks(part, "code_review"@) ==> shown is None
            &&& !apart && !beside ==> shown is None
        }),
{
}

/// `t` is what a rate limit document has as its plan: under `plan_type`, or where that is missing
/// under `planType`.
pub open spec fn plan_given(tree: JsonTree, t: JsonTree) -> bool {
    ||| usage_laws::gives(tree, "plan_type"@, t)
    ||| usage_laws::lacks(tree, "plan_type"@) && usage_laws::gives(tree, "planType"@, t)
}

/// Law: the plan of a rate limit document is the text that it gives as such, and the login method is
/// its label.
pub proof fn law_plan_of_limits(
    tree: JsonTree,
    s: Seq<char>,
    t: JsonTree,
    email: Option<Seq<char>>,
    now: Timestamp,
)
    ensures
        ({
            let shown = snapshot::snapshot(tree, email, now);
            let missing = usage_laws::lacks(tree, "plan_type"@) && usage_laws::lacks(
                tree,
                "planType"@,
            );
            &&& plan_given(tree, JsonTree::Text(s)) ==> shown.plan_type == Some(s)
                && shown.login_method == Some(usage::label_of_plan(s))
            &&& (plan_given(tree, t) && !(t is Text)) || missing ==> shown.plan_type is None
                && shown.login_method is None
        }),
{
}

/// Law: a snapshot of a document carries the address that it is given and the instant at which it was
/// made, is fresh and without an error, and has the document's own credits and additional limits.
pub proof fn law_fresh_snapshot(tree: JsonTree, email: Option<Seq<char>>, now: Timestamp)
    ensures
        ({
            let shown = snapshot::snapshot(tree, email, now);
            &&& shown.account_email == email
            &&& shown.updated_at == now
            &&& shown.source == "app-server"@
            &&& !shown.stale
            &&& shown.error is None
            &&& shown.credits == usage::credits(tree)
            &&& shown.extra_rate_windows == usage::additional_windows(tree, now)
        }),
{
}

/// `payload` is the document of the limits in a reply: under `rateLimits`, where that is missing under
/// `rate_limits`, and where that is missing too the reply itself.
pub open spec fn holds_payload(reply: JsonTree, payload: JsonTree) -> bool {
    ||| usage_laws::gives(reply, "rateLimits"@, payload)
    ||| usage_laws::lacks(reply, "rateLimits"@) && usage_laws::gives(
        reply,
        "rate_limits"@,
        payload,
    )
    ||| usage_laws::lacks(reply, "rateLimits"@) && usage_laws::lacks(reply, "rate_limits"@)
        && payload == reply
}

/// Law: the snapshot of an account has the windows of the document of the limits in the reply, and is
/// fresh as that of the document is.
pub proof fn law_server_windows(
    account: Option<JsonTree>,
    reply: JsonTree,
    payload: JsonTree,
    usage_tree: Option<JsonTree>,
    now: Timestamp,
)
    requires
        holds_payload(reply, payload),
    ensures
        ({
            let shown = snapshot::server_snapshot(account, reply, usage_tree, now);
            let base = snapshot::snapshot(payload, None, now);
            &&& shown.primary == base.primary
            &&& shown.secondary == base.secondary
            &&& shown.model_specific == base.model_specific
            &&& shown.updated_at == now
            &&& shown.source == "app-server"@
            &&& !shown.stale
            &&& shown.error is None
        }),
{
}

/// Law: the address shown is that of the account, and none without an account; the plan is that of
/// the limits, and that of the account only where they have none.
pub proof fn law_server_account(
    account: JsonTree,
    reply: JsonTree,
    payload: JsonTree,
    usage_tree: Option<JsonTree>,
    now: Timestamp,
    s: Seq<char>,
)
    requires
        holds_payload(reply, payload),
    ensures
        ({
            let shown = snapshot::server_snapshot(Some(account), reply, usage_tree, now);
            let alone = snapshot::server_snapshot(None, reply, usage_tree, now);
            let unnamed = usage_laws::lacks(payload, "plan_type"@) && usage_laws::lacks(
                payload,
                "planType"@,
            );
            &&& shown.account_email == usage::account_email(account)
            &&& alone.account_email is None
            &&& plan_given(payload, JsonTree::Text(s)) ==> shown.plan_type == Some(s)
                && alone.plan_type == Some(s)
            &&& unnamed ==> shown.plan_type == usage::account_plan(account)
                && alone.plan_type is None
            &&& shown.plan_type == Some(s) ==> shown.login_method == Some(usage::label_of_plan(s))
            &&& shown.plan_type is None ==> shown.login_method is None
        }),
{
}

/// Law: the credits shown are those of the limits, where they have none those of the usage document,
/// and where it has none either those of the reply.
pub proof fn law_server_credits(
    account: Option<JsonTree>,
    reply: JsonTree,
    payload: JsonTree,
    usage_tree: JsonTree,
    now: Timestamp,
)
    requires
        holds_payload(reply, payload),
    ensures
        ({
            let shown = snapshot::server_snapshot(account, reply, Some(usage_tree), now).credits;
            let alone = snapshot::server_snapshot(account, reply, None, now).credits;
            let first = usage::credits(payload);
            let second = usage::credits(usage_tree);
            let third = usage::credits(reply);
            &&& first is Some ==> shown == first && alone == first
            &&& first is None && second is Some ==> shown == second
            &&& first is None && second is None ==> shown == third
            &&& first is None ==> alone == third
        }),
{
}

/// Law: the extra windows are the additional limits of the limits and after them the limits of the
/// reply listed by identifier; of those with one identifier the first is shown, and nothing else.
pub proof fn law_server_extra_windows(
    account: Option<JsonTree>,
    reply: JsonTree,
    payload: JsonTree,
    usage_tree: Option<JsonTree>,
    now: Timestamp,
    i: int,
)
    requires
        holds_payload(reply, payload),
    ensures
        ({
            let shown = snapshot::server_snapshot(
                account,
                reply,
                usage_tree,
                now,
            ).extra_rate_windows;
            let own = usage::additional_windows(payload, now);
            let listed = usage::windows_by_id(reply, now);
            &&& 0 <= i < own.len() && !usage::has_id(own.take(i), own[i].id) ==> shown.contains(
                own[i],
            )
            &&& 0 <= i < listed.len() && !usage::has_id(own, listed[i].id) && !usage::has_id(
                listed.take(i),
                listed[i].id,
            ) ==> shown.contains(listed[i])
            &&& usage::distinct_ids(own + listed) ==> shown == own + listed
        }),
{
    let own = usage::additional_windows(payload, now);
    let listed = usage::windows_by_id(reply, now);
    let all = own + listed;
    if 0 <= i < own.len() && !usage::has_id(own.take(i), own[i].id) {
        assert(all.take(i) =~= own.take(i));
        usage::law_first_window_stays(all, i);
    }
    if 0 <= i < listed.len() && !usage::has_id(own, listed[i].id) && !usage::has_id(
        listed.take(i),
        listed[i].id,
    ) {
        let k = own.len() + i;
        let before = all.take(k);
        if usage::has_id(before, all[k].id) {
            let m = choose|m: int| 0 <= m < before.len() && (#[trigger] before[m]).id == all[k].id;
            if m < own.len() {
                assert(own[m].id == listed[i].id);
            } else {
                assert(listed.take(i)[m - own.len()].id == listed[i].id);
            }
        }
        usage::law_first_window_stays(all, k);
    }
    if usage::distinct_ids(all) {
        usage::law_distinct_stays(all);
    }
}

/// Law: the snapshot that stands for missing data shows nothing but the error, and is stale.
pub proof fn law_missing_data(error: Seq<char>, now: Timestamp)
    ensures
        ({
            let shown = snapshot::no_usage(error, now);
            &&& shown.stale
            &&& shown.error == Some(error)
            &&& shown.updated_at == now
            &&& shown.source == "none"@
            &&& shown.account_email is None
            &&& shown.plan_type is None
            &&& shown.login_method is None
            &&& shown.secondary is None
            &&& shown.model_specific is None
            &&& shown.extra_rate_windows.len() == 0
            &&& shown.credits is None
            &&& shown.primary.id == "codex-primary"@
            &&& shown.primary.used_percent == ReadingView::Zero
            &&& shown.primary.reset_at is None
        }),
{
}

/// Law: two snapshots with the same contents agree in every part that is shown.
pub proof fn law_contents_of_snapshot(a: UsageSnapshot, b: UsageSnapshot)
    requires
        a@ == b@,
    ensures
        a.account_email is Some == b.account_email is Some,
        a.account_email is Some ==> a.account_email->0@ == b.account_email->0@,
        a.plan_type is Some == b.plan_type is Some,
        a.plan_type is Some ==> a.plan_type->0@ == b.plan_type->0@,
        a.login_method is Some == b.login_method is Some,
        a.login_method is Some ==> a.login_method->0@ == b.login_method->0@,
        a.primary@ == b.primary@,
        a.secondary is Some == b.secondary is Some,
        a.secondary is Some ==> a.secondary->0@ == b.secondary->0@,
        a.model_specific is Some == b.model_specific is Some,
        a.model_specific is Some ==> a.model_specific->0@ == b.model_specific->0@,
        a.extra_rate_windows@.len() == b.extra_rate_windows@.len(),
        forall|i: int|
            0 <= i < a.extra_rate_windows@.len() ==> (#[trigger] a.extra_rate_windows@[i])@
                == b.extra_rate_windows@[i]@,
        a.credits is Some == b.credits is Some,
        a.credits is Some ==> a.credits->0@ == b.credits->0@,
        a.updated_at == b.updated_at,
        a.source@ == b.source@,
        a.stale == b.stale,
        a.error is Some == b.error is Some,
        a.error is Some ==> a.error->0@ == b.error->0@,
{
    let va = usage::windows(a.extra_rate_windows@);
    let vb = usage::windows(b.extra_rate_windows@);
    assert(va.len() == vb.len());
    assert forall|i: int| 0 <= i < a.extra_rate_windows@.len() implies (
    #[trigger] a.extra_rate_windows@[i])@ == b.extra_rate_windows@[i]@ by {
        assert(va[i] == vb[i]);
    }
}

/// Law: two windows with the same contents agree in every part, and so do two credits.
pub proof fn law_contents_of_parts(
    a: RateWindow,
    b: RateWindow,
    c: CostSnapshot,
    d: CostSnapshot,
)
    ensures
        a@ == b@ ==> a.id@ == b.id@ && a.title@ == b.title@ && a.used_percent@ == b.used_percent@
            && a.window_minutes == b.window_minutes && a.reset_at == b.reset_at && (
        a.reset_description is Some == b.reset_description is Some) && (
        a.reset_description is Some ==> a.reset_description->0@ == b.reset_description->0@),
        c@ == d@ ==> c.balance@ == d.balance@ && c.currency@ == d.currency@ && c.label@ == d.label@,
{
}

} // verus!
