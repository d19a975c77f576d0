use codex_usage_tray::cache::{
    apply_refresh, apply_refresh_at, cached_usage, store_heatmap, AppCache,
};
use codex_usage_tray::heatmap::HeatmapDay;
use codex_usage_tray::json_text::parse_json;
use codex_usage_tray::settings::AppSettings;
use codex_usage_tray::snapshot::{build_usage_snapshot_at, UsageSnapshot};
use codex_usage_tray::time::Timestamp;

const NOW: Timestamp = Timestamp { secs: 1_781_600_000, nanos: 0 };
const LATER: Timestamp = Timestamp { secs: 1_781_600_300, nanos: 0 };

fn fresh(plan: &str) -> UsageSnapshot {
    let text = format!("{{\"plan_type\": \"{}\", \"primary\": {{\"used_percent\": 3}}}}", plan);
    build_usage_snapshot_at(&parse_json(&text).unwrap(), None, NOW)
}

#[test]
fn fresh_cache_knows_nothing() {
    let cache = AppCache::default();
    assert!(cache.usage.is_none());
    assert!(cache.heatmap.is_none());
    assert_eq!(cache.settings, AppSettings::default());
    assert!(cached_usage(&cache).is_none());
}

#[test]
fn success_replaces_what_was_known() {
    let mut cache = AppCache::default();
    let shown = apply_refresh_at(&mut cache, Ok(fresh("pro")), LATER);
    assert_eq!(shown.plan_type.as_deref(), Some("pro"));
    assert!(!shown.stale);
    let shown = apply_refresh_at(&mut cache, Ok(fresh("plus")), LATER);
    assert_eq!(shown.plan_type.as_deref(), Some("plus"));
    assert_eq!(format!("{:?}", cached_usage(&cache).unwrap()), format!("{:?}", shown));
}

#[test]
fn failure_keeps_what_was_known() {
    let mut cache = AppCache::default();
    apply_refresh_at(&mut cache, Ok(fresh("pro")), NOW);
    let shown = apply_refresh_at(&mut cache, Err("first".to_string()), LATER);
    assert!(shown.stale);
    assert_eq!(shown.error.as_deref(), Some("first"));
    assert_eq!(shown.plan_type.as_deref(), Some("pro"));
    assert_eq!(shown.updated_at, NOW);
    let shown = apply_refresh_at(&mut cache, Err("second".to_string()), LATER);
    assert_eq!(shown.error.as_deref(), Some("second"));
    assert_eq!(shown.updated_at, NOW);
    assert_eq!(cache.usage.unwrap().error.as_deref(), Some("second"));
}

#[test]
fn failure_without_data_stands_alone() {
    let mut cache = AppCache::default();
    let shown = apply_refresh_at(&mut cache, Err("no".to_string()), NOW);
    assert_eq!(shown.source, "none");
    assert!(shown.stale);
    assert_eq!(shown.error.as_deref(), Some("no"));
    assert_eq!(shown.updated_at, NOW);
    let mut cache = AppCache::default();
    let shown = apply_refresh(&mut cache, Err("no".to_string()));
    assert!(shown.updated_at.secs > 1_700_000_000);
    let shown = apply_refresh(&mut cache, Ok(fresh("go")));
    assert!(!shown.stale && shown.error.is_none());
}

#[test]
fn heatmaps_are_remembered() {
    let mut cache = AppCache::default();
    let days = vec![HeatmapDay { date: "2026-06-16".to_string(), value: 7, intensity: 4 }];
    store_heatmap(&mut cache, &days);
    let stored = cache.heatmap.unwrap();
    assert_eq!(stored.len(), 1);
    assert_eq!((stored[0].date.as_str(), stored[0].value, stored[0].intensity), ("2026-06-16", 7, 4));
    assert_eq!(cache.settings, AppSettings::default());
}
