//! What the application remembers between runs.
use crate::heatmap::{self, HeatmapDay};
use crate::settings::{self, AppSettings};
use crate::snapshot::{self, empty_usage_at, SnapshotView, UsageSnapshot};
use crate::text;
use crate::time::{self, Timestamp};
use vstd::prelude::*;

verus! {

/// The last snapshot, the last heatmap and the settings.
#[derive(Debug)]
pub struct AppCache {
    pub usage: Option<UsageSnapshot>,
    pub heatmap: Option<Vec<HeatmapDay>>,
    pub settings: AppSettings,
}

pub struct CacheView {
    pub usage: Option<SnapshotView>,
    pub heatmap: Option<Seq<heatmap::DayView>>,
    pub settings: AppSettings,
}

impl View for AppCache {
    type V = CacheView;

    open spec fn view(&self) -> CacheView {
        CacheView {
            usage: match self.usage {
                Some(s) => Some(s@),
                None => None,
            },
            heatmap: match self.heatmap {
                Some(days) => Some(heatmap::day_views(days@)),
                None => None,
            },
            settings: self.settings,
        }
    }
}

impl Default for AppCache {
    fn default() -> (r: Self)
        ensures
            r@ == (CacheView {
                usage: None,
                heatmap: None,
                settings: settings::default_settings(),
            }),
    {
        AppCache { usage: None, heatmap: None, settings: AppSettings::default() }
    }
}

/// The snapshot to show after a fetch: what was fetched, or else what was known, marked as stale and
/// with the error.
pub open spec fn refreshed(
    known: Option<SnapshotView>,
    result: Result<SnapshotView, Seq<char>>,
    now: Timestamp,
) -> SnapshotView {
    match result {
        Ok(fresh) => fresh,
        Err(error) => {
            let base = match known {
                Some(s) => s,
                None => snapshot::no_usage(error, now),
            };
            SnapshotView { stale: true, error: Some(error), ..base }
        },
    }
}

/// Takes in the outcome of a fetch at `now`, remembers the snapshot and returns it.
pub fn apply_refresh_at(
    cache: &mut AppCache,
    result: Result<UsageSnapshot, String>,
    now: Timestamp,
) -> (r: UsageSnapshot)
    ensures
        r@ == refreshed(old(cache)@.usage, snapshot::outcome(result), now),
        final(cache)@ == (CacheView { usage: Some(r@), ..old(cache)@ }),
{
    let shown = match result {
        Ok(fresh) => fresh,
        Err(error) => {
            let mut base = match &cache.usage {
                Some(s) => s.clone(),
                None => empty_usage_at(error.as_str(), now),
            };
            base.stale = true;
            base.error = Some(error);
            base
        },
    };
    cache.usage = Some(shown.clone());
    shown
}

/// Takes in the outcome of a fetch at the present.
pub fn apply_refresh(cache: &mut AppCache, result: Result<UsageSnapshot, String>) -> (r:
    UsageSnapshot)
    ensures
        exists|now: Timestamp|
            now.on_clock() && r@ == #[trigger] refreshed(old(cache)@.usage, snapshot::outcome(result), now),
        final(cache)@ == (CacheView { usage: Some(r@), ..old(cache)@ }),
{
    let now = time::utc_now();
    apply_refresh_at(cache, result, now)
}

/// The remembered snapshot; none where the usage has to be fetched first.
pub fn cached_usage(cache: &AppCache) -> (r: Option<UsageSnapshot>)
    ensures
        r is Some == cache@.usage is Some,
        r is Some ==> r->0@ == cache@.usage->0,
{
    match &cache.usage {
        Some(s) => Some(s.clone()),
        None => None,
    }
}

/// Remembers a heatmap.
pub fn store_heatmap(cache: &mut AppCache, days: &Vec<HeatmapDay>)
    ensures
        final(cache)@ == (CacheView {
            heatmap: Some(heatmap::day_views(days@)),
            ..old(cache)@
        }),
{
    cache.heatmap = Some(heatmap::copy_days(days));
}

/// Law: a failed fetch keeps what was known, and shows it as stale with the error.
pub proof fn law_failure_keeps_data(known: SnapshotView, error: Seq<char>, now: Timestamp)
    ensures
        ({
            let shown = refreshed(Some(known), Err(error), now);
            &&& shown.stale
            &&& shown.error == Some(error)
            &&& shown == (SnapshotView { stale: shown.stale, error: shown.error, ..known })
        }),
{
}

/// Law: of several failures in a row the last one shows, over the data from before the first.
pub proof fn law_last_failure_shows(
    known: Option<SnapshotView>,
    first: Seq<char>,
    second: Seq<char>,
    now: Timestamp,
    later: Timestamp,
)
    ensures
        refreshed(Some(refreshed(known, Err(first), now)), Err(second), later) == refreshed(
            known,
            Err(second),
            now,
        ),
{
}

/// Law: a successful fetch replaces what was known, whatever that was.
pub proof fn law_success_replaces(
    a: Option<SnapshotView>,
    b: Option<SnapshotView>,
    fresh: SnapshotView,
    now: Timestamp,
)
    ensures
        refreshed(a, Ok(fresh), now) == fresh,
        refreshed(b, Ok(fresh), now) == refreshed(a, Ok(fresh), now),
{
}

/// Law: a failed fetch without known data shows the error over nothing, as of the present, and is
/// stale.
pub proof fn law_failure_without_data(error: Seq<char>, now: Timestamp)
    ensures
        ({
            let shown = refreshed(None, Err(error), now);
            &&& shown.stale
            &&& shown.error == Some(error)
            &&& shown.source == "none"@
            &&& shown.updated_at == now
            &&& shown.account_email is None
            &&& shown.secondary is None
            &&& shown.extra_rate_windows.len() == 0
            &&& shown.credits is None
        }),
{
}

/// Law: data fetched after a failure shows no trace of it.
pub proof fn law_success_after_failure(
    known: Option<SnapshotView>,
    error: Seq<char>,
    fresh: SnapshotView,
    now: Timestamp,
    later: Timestamp,
)
    ensures
        refreshed(Some(refreshed(known, Err(error), now)), Ok(fresh), later) == fresh,
{
}

} // verus!
