//! The usage snapshot that the popup shows, and how it is put together.
use crate::json::{self, Json, JsonTree};
use crate::text;
use crate::time::{self, Timestamp};
use crate::usage::{
    self, CostSnapshot, CostView, RateWindow, RateWindowView, Reading, ReadingView,
};
use vstd::prelude::*;

verus! {

/// What is known of the usage of an account.
#[derive(Debug)]
pub struct UsageSnapshot {
    pub account_email: Option<String>,
    pub plan_type: Option<String>,
    pub login_method: Option<String>,
    pub primary: RateWindow,
    pub secondary: Option<RateWindow>,
    pub model_specific: Option<RateWindow>,
    pub extra_rate_windows: Vec<RateWindow>,
    pub credits: Option<CostSnapshot>,
    pub updated_at: Timestamp,
    pub source: String,
    pub stale: bool,
    pub error: Option<String>,
}

pub struct SnapshotView {
    pub account_email: Option<Seq<char>>,
    pub plan_type: Option<Seq<char>>,
    pub login_method: Option<Seq<char>>,
    pub primary: RateWindowView,
    pub secondary: Option<RateWindowView>,
    pub model_specific: Option<RateWindowView>,
    pub extra_rate_windows: Seq<RateWindowView>,
    pub credits: Option<CostView>,
    pub updated_at: Timestamp,
    pub source: Seq<char>,
    pub stale: bool,
    pub error: Option<Seq<char>>,
}

impl View for UsageSnapshot {
    type V = SnapshotView;

    open spec fn view(&self) -> SnapshotView {
        SnapshotView {
            account_email: text::opt_view(self.account_email),
            plan_type: text::opt_view(self.plan_type),
            login_method: text::opt_view(self.login_method),
            primary: self.primary@,
            secondary: usage::opt_window(self.secondary),
            model_specific: usage::opt_window(self.model_specific),
            extra_rate_windows: usage::windows(self.extra_rate_windows@),
            credits: usage::opt_cost(self.credits),
            updated_at: self.updated_at,
            source: self.source@,
            stale: self.stale,
            error: text::opt_view(self.error),
        }
    }
}

/// The outcome of fetching the usage.
pub open spec fn outcome(result: Result<UsageSnapshot, String>) -> Result<SnapshotView, Seq<char>> {
    match result {
        Ok(s) => Ok(s@),
        Err(e) => Err(e@),
    }
}

/// The part of a document that holds the rate limit windows: a field of its own, or the document
/// itself where it has one of the windows.
pub open spec fn limits(tree: JsonTree) -> Option<JsonTree> {
    match tree.get2("rate_limit"@, "rateLimits"@) {
        Some(part) => Some(part),
        None => if tree.get("primary"@) is Some || tree.get("secondary"@) is Some || tree.get(
            "primary_window"@,
        ) is Some || tree.get("secondary_window"@) is Some {
            Some(tree)
        } else {
            None
        },
    }
}

fn find_limits(json: &Json) -> (r: Option<&Json>)
    ensures
        json::tree_of(r) == limits(json@),
{
    match json.get2("rate_limit", "rateLimits") {
        Some(part) => Some(part),
        None => {
            if json.get("primary").is_some() || json.get("secondary").is_some() || json.get(
                "primary_window",
            ).is_some() || json.get("secondary_window").is_some() {
                Some(json)
            } else {
                None
            }
        },
    }
}

/// The item at `index` of the list of windows of a document.
pub open spec fn listed(tree: JsonTree, index: int) -> Option<JsonTree> {
    let list = usage::items(tree.get2("rate_limits"@, "rateLimits"@));
    if index < list.len() {
        Some(list[index])
    } else {
        None
    }
}

fn find_listed(json: &Json, index: usize) -> (r: Option<&Json>)
    ensures
        json::tree_of(r) == listed(json@, index as int),
{
    match json.get2("rate_limits", "rateLimits") {
        Some(list) => match list.as_array() {
            Some(items) => {
                if index < items.len() {
                    assert(json::trees(items@)[index as int] == items@[index as int]@);
                    Some(&items[index])
                } else {
                    None
                }
            },
            None => None,
        },
        None => None,
    }
}

/// The document of the window that has one of two names in the limits, else the item at `index` of
/// the list of windows.
pub open spec fn window_part(
    tree: JsonTree,
    a: Seq<char>,
    b: Seq<char>,
    index: int,
) -> Option<JsonTree> {
    let named = match limits(tree) {
        Some(part) => part.get2(a, b),
        None => None,
    };
    usage::either(named, listed(tree, index))
}

fn find_window<'a>(json: &'a Json, a: &str, b: &str, index: usize) -> (r: Option<&'a Json>)
    ensures
        json::tree_of(r) == window_part(json@, a@, b@, index as int),
{
    let named = match find_limits(json) {
        Some(part) => part.get2(a, b),
        None => None,
    };
    match named {
        Some(part) => Some(part),
        None => find_listed(json, index),
    }
}

/// The window of the last five hours.
pub open spec fn primary_window(tree: JsonTree, now: Timestamp) -> RateWindowView {
    match window_part(tree, "primary_window"@, "primary"@, 0) {
        Some(part) => usage::window("codex-primary"@, "5小时"@, part, now),
        None => RateWindowView::simple(
            "codex-primary"@,
            "Codex"@,
            usage::quantity_or_zero(tree.get2("used_percent"@, "usage_percent"@)),
        ),
    }
}

/// The window of the last seven days.
pub open spec fn secondary_window(tree: JsonTree, now: Timestamp) -> Option<RateWindowView> {
    match window_part(tree, "secondary_window"@, "secondary"@, 1) {
        Some(part) => Some(usage::window("codex-weekly"@, "7天"@, part, now)),
        None => None,
    }
}

/// The window of code reviews.
pub open spec fn review_window(tree: JsonTree, now: Timestamp) -> Option<RateWindowView> {
    match limits(tree) {
        Some(part) => match part.get3("code_review_window"@, "codeReview"@, "code_review"@) {
            Some(w) => Some(usage::window("codex-code-review"@, "Code Review"@, w, now)),
            None => None,
        },
        None => None,
    }
}

/// The snapshot of a rate limit document.
pub open spec fn snapshot(
    tree: JsonTree,
    account_email: Option<Seq<char>>,
    now: Timestamp,
) -> SnapshotView {
    let plan = usage::string(tree.get2("plan_type"@, "planType"@));
    SnapshotView {
        account_email,
        plan_type: plan,
        login_method: usage::opt_label(plan),
        primary: primary_window(tree, now),
        secondary: secondary_window(tree, now),
        model_specific: review_window(tree, now),
        extra_rate_windows: usage::additional_windows(tree, now),
        credits: usage::credits(tree),
        updated_at: now,
        source: "app-server"@,
        stale: false,
        error: None,
    }
}

fn owned(s: Option<&str>) -> (r: Option<String>)
    ensures
        r is Some == s is Some,
        r is Some ==> r->0@ == s->0@,
{
    match s {
        Some(s) => Some(s.to_owned()),
        None => None,
    }
}

/// Reads a rate limit document, with countdowns from `now`.
pub fn build_usage_snapshot_at(json: &Json, account_email: Option<String>, now: Timestamp) -> (r:
    UsageSnapshot)
    requires
        now.valid(),
    ensures
        r@ == snapshot(json@, text::opt_view(account_email), now),
{
    let plan_type = owned(
        match json.get2("plan_type", "planType") {
            Some(v) => v.as_str(),
            None => None,
        },
    );
    let primary = match find_window(json, "primary_window", "primary", 0) {
        Some(part) => usage::parse_window("codex-primary", "5小时", part, now),
        None => RateWindow::simple(
            "codex-primary",
            "Codex",
            usage::reading_or_zero(json.get2("used_percent", "usage_percent")),
        ),
    };
    let secondary = match find_window(json, "secondary_window", "secondary", 1) {
        Some(part) => Some(usage::parse_window("codex-weekly", "7天", part, now)),
        None => None,
    };
    let review = match find_limits(json) {
        Some(part) => part.get3("code_review_window", "codeReview", "code_review"),
        None => None,
    };
    let model_specific = match review {
        Some(part) => Some(
            usage::parse_window("codex-code-review", "Code Review", part, now),
        ),
        None => None,
    };
    UsageSnapshot {
        account_email,
        login_method: usage::label_of(&plan_type),
        plan_type,
        primary,
        secondary,
        model_specific,
        extra_rate_windows: usage::extract_additional_rate_limits(json, now),
        credits: usage::extract_credits(json),
        updated_at: now,
        source: "app-server".to_owned(),
        stale: false,
        error: None,
    }
}

/// Reads a rate limit document at the present.
pub fn build_usage_snapshot(json: &Json, account_email: Option<String>) -> (r: UsageSnapshot)
    ensures
        r.updated_at.on_clock(),
        r@ == snapshot(json@, text::opt_view(account_email), r.updated_at),
{
    let now = time::utc_now();
    build_usage_snapshot_at(json, account_email, now)
}

/// The snapshot of an account and its rate limits. What the rate limits leave open, the plan and
/// the credits, comes from the account and the usage document; the extra windows are those of the
/// limits and those listed by identifier, each identifier once.
pub open spec fn server_snapshot(
    account: Option<JsonTree>,
    rate_limits: JsonTree,
    usage_tree: Option<JsonTree>,
    now: Timestamp,
) -> SnapshotView {
    let payload = usage::tree_or(
        rate_limits.get2("rateLimits"@, "rate_limits"@),
        rate_limits,
    );
    let email = match account {
        Some(a) => usage::account_email(a),
        None => None,
    };
    let base = snapshot(payload, email, now);
    let plan = match (base.plan_type, account) {
        (Some(plan), _) => Some(plan),
        (None, Some(a)) => usage::account_plan(a),
        (None, None) => None,
    };
    let bought = match usage_tree {
        Some(u) => usage::credits(u),
        None => None,
    };
    SnapshotView {
        plan_type: plan,
        login_method: usage::opt_label(plan),
        credits: if base.credits is Some {
            base.credits
        } else if bought is Some {
            bought
        } else {
            usage::credits(rate_limits)
        },
        extra_rate_windows: usage::deduped(
            base.extra_rate_windows + usage::windows_by_id(rate_limits, now),
        ),
        ..base
    }
}

/// Puts the snapshot of an account and its rate limits together, with countdowns from `now`.
pub fn build_usage_snapshot_from_app_server_at(
    account: Option<&Json>,
    rate_limits: &Json,
    usage_json: Option<&Json>,
    now: Timestamp,
) -> (r: UsageSnapshot)
    requires
        now.valid(),
    ensures
        r@ == server_snapshot(
            json::tree_of(account),
            rate_limits@,
            json::tree_of(usage_json),
            now,
        ),
{
    let payload = match rate_limits.get2("rateLimits", "rate_limits") {
        Some(part) => part,
        None => rate_limits,
    };
    let account_email = match account {
        Some(a) => usage::extract_account_email(a),
        None => None,
    };
    let mut result = build_usage_snapshot_at(payload, account_email, now);
    if result.plan_type.is_none() {
        result.plan_type =
        match account {
            Some(a) => usage::extract_account_plan_type(a),
            None => None,
        };
        result.login_method = usage::label_of(&result.plan_type);
    }
    if result.credits.is_none() {
        result.credits =
        match usage_json {
            Some(u) => usage::extract_credits(u),
            None => None,
        };
        if result.credits.is_none() {
            result.credits = usage::extract_credits(rate_limits);
        }
    }
    let mut by_id = usage::extract_rate_limits_by_id(rate_limits, now);
    let ghost first = result.extra_rate_windows@;
    let ghost second = by_id@;
    result.extra_rate_windows.append(&mut by_id);
    assert(usage::windows(result.extra_rate_windows@) =~= usage::windows(first) + usage::windows(
        second,
    ));
    usage::dedupe_rate_windows(&mut result.extra_rate_windows);
    result
}

/// Puts the snapshot of an account and its rate limits together at the present.
pub fn build_usage_snapshot_from_app_server(
    account: Option<&Json>,
    rate_limits: &Json,
    usage_json: Option<&Json>,
) -> (r: UsageSnapshot)
    ensures
        r.updated_at.on_clock(),
        r@ == server_snapshot(
            json::tree_of(account),
            rate_limits@,
            json::tree_of(usage_json),
            r.updated_at,
        ),
{
    let now = time::utc_now();
    build_usage_snapshot_from_app_server_at(account, rate_limits, usage_json, now)
}

/// The snapshot that stands for missing data.
pub open spec fn no_usage(error: Seq<char>, now: Timestamp) -> SnapshotView {
    SnapshotView {
        account_email: None,
        plan_type: None,
        login_method: None,
        primary: RateWindowView::simple("codex-primary"@, "Codex"@, ReadingView::Zero),
        secondary: None,
        model_specific: None,
        extra_rate_windows: seq![],
        credits: None,
        updated_at: now,
        source: "none"@,
        stale: true,
        error: Some(error),
    }
}

/// The snapshot that stands for missing data, as of `now`.
pub fn empty_usage_at(error: &str, now: Timestamp) -> (r: UsageSnapshot)
    ensures
        r@ == no_usage(error@, now),
{
    let extra: Vec<RateWindow> = Vec::new();
    assert(usage::windows(extra@) =~= seq![]);
    UsageSnapshot {
        account_email: None,
        plan_type: None,
        login_method: None,
        primary: RateWindow::simple("codex-primary", "Codex", Reading::Zero),
        secondary: None,
        model_specific: None,
        extra_rate_windows: extra,
        credits: None,
        updated_at: now,
        source: "none".to_owned(),
        stale: true,
        error: Some(error.to_owned()),
    }
}

/// The snapshot that stands for missing data at the present.
pub fn empty_usage(error: &str) -> (r: UsageSnapshot)
    ensures
        r.updated_at.on_clock(),
        r@ == no_usage(error@, r.updated_at),
{
    let now = time::utc_now();
    empty_usage_at(error, now)
}

impl Clone for UsageSnapshot {
    fn clone(&self) -> (r: Self)
        ensures
            r@ == self@,
    {
        UsageSnapshot {
            account_email: usage::copy_text(&self.account_email),
            plan_type: usage::copy_text(&self.plan_type),
            login_method: usage::copy_text(&self.login_method),
            primary: self.primary.clone(),
            secondary: usage::copy_window(&self.secondary),
            model_specific: usage::copy_window(&self.model_specific),
            extra_rate_windows: usage::copy_windows(&self.extra_rate_windows),
            credits: match &self.credits {
                Some(c) => Some(c.clone()),
                None => None,
            },
            updated_at: self.updated_at,
            source: self.source.clone(),
            stale: self.stale,
            error: usage::copy_text(&self.error),
        }
    }
}

/// Law: of an account, a snapshot shows the e-mail address and the plan; nothing else in the account
/// document, such as a token, has a part in it.
pub proof fn law_account_shows_email_and_plan(
    account: JsonTree,
    other: JsonTree,
    rate_limits: JsonTree,
    usage_tree: Option<JsonTree>,
    now: Timestamp,
)
    requires
        usage::account_email(account) == usage::account_email(other),
        usage::account_plan(account) == usage::account_plan(other),
    ensures
        server_snapshot(Some(account), rate_limits, usage_tree, now) == server_snapshot(
            Some(other),
            rate_limits,
            usage_tree,
            now,
        ),
{
}

/// Law: no two extra windows of an account have the same identifier.
pub proof fn law_extra_windows_distinct(
    account: Option<JsonTree>,
    rate_limits: JsonTree,
    usage_tree: Option<JsonTree>,
    now: Timestamp,
)
    ensures
        usage::distinct_ids(
            server_snapshot(account, rate_limits, usage_tree, now).extra_rate_windows,
        ),
{
    let payload = usage::tree_or(rate_limits.get2("rateLimits"@, "rate_limits"@), rate_limits);
    usage::law_deduped_distinct(
        usage::additional_windows(payload, now) + usage::windows_by_id(rate_limits, now),
    );
}

/// Law: the login method of an account is the label of its plan, and there is one where there is
/// the other.
pub proof fn law_login_method_is_plan_label(
    account: Option<JsonTree>,
    rate_limits: JsonTree,
    usage_tree: Option<JsonTree>,
    now: Timestamp,
)
    ensures
        server_snapshot(account, rate_limits, usage_tree, now).login_method == usage::opt_label(
            server_snapshot(account, rate_limits, usage_tree, now).plan_type,
        ),
{
}

} // verus!
