//! The settings of the program and their defaults.

use vstd::prelude::*;

verus! {

/// A game that the user marked as a favorite.
#[derive(Debug, Clone)]
pub struct FavoriteGame {
    pub id: String,
    pub place_id: u64,
    pub name: String,
    pub thumbnail: Option<String>,
    /// When the game was marked, in milliseconds since 1970.
    pub added_at: u64,
}

/// What the user can set.
#[derive(Debug, Clone)]
pub struct AppSettings {
    /// `never`, `1min`, `5min` or `15min`.
    pub auto_lock_timeout: String,
    pub launch_on_startup: bool,
    pub always_on_top: bool,
    /// `dark`, `light` or `system`.
    pub theme: String,
    pub compact_mode: bool,
    pub accent_color: String,
    /// Whether each account runs in an environment of its own.
    pub multi_instance: bool,
    /// `default`, `bloxstrap`, `fishstrap`, `froststrap` or `client`.
    pub launcher_preference: String,
    pub quarantine_installers: bool,
    pub save_logs: bool,
    pub force_handle_closure: bool,
    pub low_cpu_mode: bool,
    pub favorite_games: Vec<FavoriteGame>,
}

/// The accent color of settings that name none.
pub fn default_accent() -> (color: String)
    ensures
        color@ == "red"@,
{
    "red".to_owned()
}

impl Default for AppSettings {
    /// The settings of a fresh installation: never lock, dark theme, red
    /// accent, the default launcher, and everything else off or empty.
    fn default() -> (settings: Self)
        ensures
            settings.auto_lock_timeout@ == "never"@,
            !settings.launch_on_startup,
            !settings.always_on_top,
            settings.theme@ == "dark"@,
            !settings.compact_mode,
            settings.accent_color@ == "red"@,
            !settings.multi_instance,
            settings.launcher_preference@ == "default"@,
            !settings.quarantine_installers,
            !settings.save_logs,
            !settings.force_handle_closure,
            !settings.low_cpu_mode,
            settings.favorite_games@.len() == 0,
    {
        AppSettings {
            auto_lock_timeout: "never".to_owned(),
            launch_on_startup: false,
            always_on_top: false,
            theme: "dark".to_owned(),
            compact_mode: false,
            accent_color: default_accent(),
            multi_instance: false,
            launcher_preference: "default".to_owned(),
            quarantine_installers: false,
            save_logs: false,
            force_handle_closure: false,
            low_cpu_mode: false,
            favorite_games: Vec::new(),
        }
    }
}

} // verus!
