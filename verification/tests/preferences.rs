use codex_usage_tray::settings::{
    autostart_enabled, get_settings, refresh_due, refresh_interval, set_autostart,
    update_settings, AppSettings, Platform, SettingsPatch, StartEntry,
};

const EMPTY: SettingsPatch = SettingsPatch {
    refresh_interval_secs: None,
    autostart: None,
    privacy_mode: None,
    hide_account: None,
};

#[test]
fn fresh_settings_keep_things_private() {
    assert_eq!(
        AppSettings::default(),
        AppSettings {
            refresh_interval_secs: 300,
            autostart: false,
            privacy_mode: true,
            hide_account: true,
        }
    );
}

#[test]
fn changes_are_clamped_and_idempotent() {
    for (asked, set) in [(0, 60), (59, 60), (60, 60), (1234, 1234), (3600, 3600), (u64::MAX, 3600)] {
        let mut settings = AppSettings::default();
        let patch = SettingsPatch { refresh_interval_secs: Some(asked), ..EMPTY };
        assert_eq!(update_settings(&mut settings, &patch), None);
        assert_eq!(settings, AppSettings { refresh_interval_secs: set, ..AppSettings::default() });
        let once = settings;
        update_settings(&mut settings, &patch);
        assert_eq!(settings, once);
        assert_eq!(refresh_interval(Some(settings)), set);
    }
}

#[test]
fn empty_change_changes_nothing() {
    let mut settings = AppSettings {
        refresh_interval_secs: 5,
        autostart: true,
        privacy_mode: false,
        hide_account: true,
    };
    let before = settings;
    assert_eq!(update_settings(&mut settings, &EMPTY), None);
    assert_eq!(settings, before);
}

#[test]
fn flags_change_and_starting_is_asked_for() {
    let mut settings = AppSettings::default();
    let patch = SettingsPatch {
        autostart: Some(true),
        privacy_mode: Some(false),
        hide_account: Some(false),
        ..EMPTY
    };
    assert_eq!(update_settings(&mut settings, &patch), Some(true));
    assert_eq!(
        settings,
        AppSettings {
            refresh_interval_secs: 300,
            autostart: false,
            privacy_mode: false,
            hide_account: false,
        }
    );
    assert!(get_settings(&settings, true).autostart);
    assert!(!get_settings(&get_settings(&settings, true), false).autostart);
}

#[test]
fn refreshes_keep_their_distance() {
    assert_eq!(refresh_interval(None), 300);
    let hasty = AppSettings { refresh_interval_secs: 1, ..AppSettings::default() };
    assert_eq!(refresh_interval(Some(hasty)), 60);
    assert!(!refresh_due(59, Some(hasty)));
    assert!(refresh_due(60, Some(hasty)));
    assert!(!refresh_due(299, None));
    assert!(refresh_due(300, None));
    let lazy = AppSettings { refresh_interval_secs: 90_000, ..AppSettings::default() };
    assert_eq!(refresh_interval(Some(lazy)), 90_000);
}

#[test]
fn starting_with_the_system() {
    assert!(autostart_enabled(Platform::Windows, Some("")));
    assert!(!autostart_enabled(Platform::Windows, None));
    assert!(!autostart_enabled(Platform::MacOs, Some("x")));
    assert!(!autostart_enabled(Platform::Other, Some("x")));
    match set_autostart(Platform::Windows, true, "C:\\a b.exe") {
        StartEntry::Write(entry) => assert_eq!(entry, "\"C:\\a b.exe\""),
        other => panic!("{:?}", other),
    }
    assert!(matches!(set_autostart(Platform::Windows, false, "x"), StartEntry::Remove));
    assert!(matches!(set_autostart(Platform::MacOs, true, "x"), StartEntry::Keep));
    assert!(matches!(set_autostart(Platform::Other, false, "x"), StartEntry::Keep));
}
