//! Settings, the refresh interval and starting with the system.
use vstd::prelude::*;

verus! {

/// The systems that are told apart.
#[derive(Clone, Copy, Debug, PartialEq, Eq, Structural)]
pub enum Platform {
    Windows,
    MacOs,
    Other,
}

/// The refresh interval of a fresh installation.
pub const DEFAULT_REFRESH_INTERVAL_SECS: u64 = 300;

/// The shortest refresh interval.
pub const MIN_REFRESH_INTERVAL_SECS: u64 = 60;

/// The longest refresh interval that can be set.
pub const MAX_REFRESH_INTERVAL_SECS: u64 = 3600;

/// The settings of the user.
#[derive(Clone, Copy, Debug, PartialEq, Eq, Structural)]
pub struct AppSettings {
    pub refresh_interval_secs: u64,
    pub autostart: bool,
    pub privacy_mode: bool,
    pub hide_account: bool,
}

/// The settings of a fresh installation: what is private stays hidden.
pub open spec fn default_settings() -> AppSettings {
    AppSettings {
        refresh_interval_secs: DEFAULT_REFRESH_INTERVAL_SECS,
        autostart: false,
        privacy_mode: true,
        hide_account: true,
    }
}

impl Default for AppSettings {
    fn default() -> (r: Self)
        ensures
            r == default_settings(),
    {
        AppSettings {
            refresh_interval_secs: DEFAULT_REFRESH_INTERVAL_SECS,
            autostart: false,
            privacy_mode: true,
            hide_account: true,
        }
    }
}

/// A change of some settings.
#[derive(Clone, Copy, Debug, PartialEq, Eq)]
pub struct SettingsPatch {
    pub refresh_interval_secs: Option<u64>,
    pub autostart: Option<bool>,
    pub privacy_mode: Option<bool>,
    pub hide_account: Option<bool>,
}

/// `n` or the nearer bound of the settable refresh intervals.
pub open spec fn clamped_interval(n: u64) -> u64 {
    if n < MIN_REFRESH_INTERVAL_SECS {
        MIN_REFRESH_INTERVAL_SECS
    } else if n > MAX_REFRESH_INTERVAL_SECS {
        MAX_REFRESH_INTERVAL_SECS
    } else {
        n
    }
}

/// The settings after a change. Starting with the system is up to the system and stays as it is.
pub open spec fn patched(settings: AppSettings, patch: SettingsPatch) -> AppSettings {
    AppSettings {
        refresh_interval_secs: match patch.refresh_interval_secs {
            Some(n) => clamped_interval(n),
            None => settings.refresh_interval_secs,
        },
        autostart: settings.autostart,
        privacy_mode: match patch.privacy_mode {
            Some(b) => b,
            None => settings.privacy_mode,
        },
        hide_account: match patch.hide_account {
            Some(b) => b,
            None => settings.hide_account,
        },
    }
}

/// Changes the settings, and returns what the system is to be asked about starting the application.
pub fn update_settings(settings: &mut AppSettings, patch: &SettingsPatch) -> (r: Option<bool>)
    ensures
        *final(settings) == patched(*old(settings), *patch),
        r == patch.autostart,
{
    if let Some(n) = patch.refresh_interval_secs {
        settings.refresh_interval_secs = if n < MIN_REFRESH_INTERVAL_SECS {
            MIN_REFRESH_INTERVAL_SECS
        } else if n > MAX_REFRESH_INTERVAL_SECS {
            MAX_REFRESH_INTERVAL_SECS
        } else {
            n
        };
    }
    if let Some(b) = patch.privacy_mode {
        settings.privacy_mode = b;
    }
    if let Some(b) = patch.hide_account {
        settings.hide_account = b;
    }
    patch.autostart
}

/// The settings with what the system says about starting the application.
pub fn get_settings(settings: &AppSettings, autostart: bool) -> (r: AppSettings)
    ensures
        r == (AppSettings { autostart, ..*settings }),
{
    let mut r = *settings;
    r.autostart = autostart;
    r
}

/// The refresh interval in force, in seconds; the default where the settings cannot be read.
pub open spec fn interval(settings: Option<AppSettings>) -> u64 {
    match settings {
        Some(s) => if s.refresh_interval_secs < MIN_REFRESH_INTERVAL_SECS {
            MIN_REFRESH_INTERVAL_SECS
        } else {
            s.refresh_interval_secs
        },
        None => DEFAULT_REFRESH_INTERVAL_SECS,
    }
}

/// The refresh interval in force, in seconds.
pub fn refresh_interval(settings: Option<AppSettings>) -> (r: u64)
    ensures
        r == interval(settings),
{
    match settings {
        Some(s) => {
            if s.refresh_interval_secs < MIN_REFRESH_INTERVAL_SECS {
                MIN_REFRESH_INTERVAL_SECS
            } else {
                s.refresh_interval_secs
            }
        },
        None => DEFAULT_REFRESH_INTERVAL_SECS,
    }
}

/// Whether it is time for a refresh, by the whole seconds since the last one.
pub fn refresh_due(elapsed_secs: u64, settings: Option<AppSettings>) -> (r: bool)
    ensures
        r == (elapsed_secs >= interval(settings)),
{
    elapsed_secs >= refresh_interval(settings)
}

/// Whether the system starts the application: on Windows where there is a start entry, else never.
pub fn autostart_enabled(platform: Platform, start_entry: Option<&str>) -> (r: bool)
    ensures
        r == (platform is Windows && start_entry is Some),
{
    match platform {
        Platform::Windows => start_entry.is_some(),
        _ => false,
    }
}

/// What to do about the start entry.
#[derive(Debug)]
pub enum StartEntry {
    Keep,
    Write(String),
    Remove,
}

/// Decides what happens to the start entry: on Windows it is written, as the path of the program in
/// quotes, or removed; elsewhere there is none.
pub fn set_autostart(platform: Platform, enabled: bool, program: &str) -> (r: StartEntry)
    ensures
        r is Keep <==> !(platform is Windows),
        r is Remove <==> platform is Windows && !enabled,
        r is Write <==> platform is Windows && enabled,
        r matches StartEntry::Write(entry) ==> entry@ == seq!['"'] + program@ + seq!['"'],
{
    match platform {
        Platform::Windows => {
            if enabled {
                let mut entry: String = String::new();
                entry.push('"');
                entry.append(program);
                entry.push('"');
                assert(entry@ =~= seq!['"'] + program@ + seq!['"']);
                StartEntry::Write(entry)
            } else {
                StartEntry::Remove
            }
        },
        _ => StartEntry::Keep,
    }
}

/// Law: a change that is made twice is made once.
pub proof fn law_patch_idempotent(settings: AppSettings, patch: SettingsPatch)
    ensures
        patched(patched(settings, patch), patch) == patched(settings, patch),
{
}

/// Law: an empty change changes nothing.
pub proof fn law_empty_patch(settings: AppSettings)
    ensures
        patched(
            settings,
            SettingsPatch {
                refresh_interval_secs: None,
                autostart: None,
                privacy_mode: None,
                hide_account: None,
            },
        ) == settings,
{
}

/// Law: an interval that was set lies between the bounds, and is the interval in force.
pub proof fn law_set_interval(settings: AppSettings, patch: SettingsPatch)
    requires
        patch.refresh_interval_secs is Some,
    ensures
        MIN_REFRESH_INTERVAL_SECS <= patched(settings, patch).refresh_interval_secs
            <= MAX_REFRESH_INTERVAL_SECS,
        interval(Some(patched(settings, patch))) == patched(settings, patch).refresh_interval_secs,
{
}

/// Law: whatever the settings hold, no refresh comes within a minute of the last.
pub proof fn law_interval_at_least_a_minute(settings: Option<AppSettings>)
    ensures
        interval(settings) >= MIN_REFRESH_INTERVAL_SECS,
{
}

/// Law: each setting follows its own part of a change: it takes the value that is given for it, and
/// stays as it was where none is given, whatever the change says of the others.
pub proof fn law_settings_change_apart(settings: AppSettings, patch: SettingsPatch, b: bool, n: u64)
    ensures
        ({
            let after = patched(settings, patch);
            &&& patch.privacy_mode == Some(b) ==> after.privacy_mode == b
            &&& patch.privacy_mode is None ==> after.privacy_mode == settings.privacy_mode
            &&& patch.hide_account == Some(b) ==> after.hide_account == b
            &&& patch.hide_account is None ==> after.hide_account == settings.hide_account
            &&& patch.refresh_interval_secs == Some(n) && 60 <= n <= 3600
                ==> after.refresh_interval_secs == n
            &&& patch.refresh_interval_secs == Some(n) && n < 60
                ==> after.refresh_interval_secs == 60
            &&& patch.refresh_interval_secs == Some(n) && n > 3600
                ==> after.refresh_interval_secs == 3600
            &&& patch.refresh_interval_secs is None
                ==> after.refresh_interval_secs == settings.refresh_interval_secs
            &&& after.autostart == settings.autostart
        }),
{
}

/// Law: of two changes of one setting the last one shows, and a change of another setting between
/// them does not matter.
pub proof fn law_last_change_shows(
    settings: AppSettings,
    first: SettingsPatch,
    between: SettingsPatch,
    last: SettingsPatch,
)
    ensures
        last.privacy_mode is Some ==> patched(
            patched(patched(settings, first), between),
            last,
        ).privacy_mode == last.privacy_mode->0,
        last.hide_account is Some ==> patched(
            patched(patched(settings, first), between),
            last,
        ).hide_account == last.hide_account->0,
        between.privacy_mode is None && last.privacy_mode is None ==> patched(
            patched(patched(settings, first), between),
            last,
        ).privacy_mode == patched(settings, first).privacy_mode,
        between.hide_account is None && last.hide_account is None ==> patched(
            patched(patched(settings, first), between),
            last,
        ).hide_account == patched(settings, first).hide_account,
{
}

/// Law: the interval in force is the one in the settings from a minute on, a minute below that, and
/// five minutes where there are no settings.
pub proof fn law_interval_in_force(settings: AppSettings)
    ensures
        settings.refresh_interval_secs >= 60 ==> interval(Some(settings))
            == settings.refresh_interval_secs,
        settings.refresh_interval_secs < 60 ==> interval(Some(settings)) == 60,
        interval(None) == 300,
{
}

} // verus!
