//! User preferences and where the configuration lives.
use vstd::prelude::*;

use crate::text::{join_path, join_path_exec};

verus! {

#[derive(Debug, Clone)]
pub struct Settings {
    pub background_monitor: bool,
    pub notifications: bool,
    pub signal_refresh_seconds: u32,
    pub traffic_refresh_seconds: u32,
    pub language: String,
    pub restore_profile_on_startup: bool,
    pub check_updates_on_startup: bool,
}

impl Default for Settings {
    fn default() -> (r: Self)
        ensures
            !r.background_monitor,
            r.notifications,
            r.signal_refresh_seconds == 10,
            r.traffic_refresh_seconds == 2,
            r.language@ == "system"@,
            !r.restore_profile_on_startup,
            !r.check_updates_on_startup,
    {
        Settings {
            background_monitor: false,
            notifications: true,
            signal_refresh_seconds: 10,
            traffic_refresh_seconds: 2,
            language: String::from_str("system"),
            restore_profile_on_startup: false,
            check_updates_on_startup: false,
        }
    }
}

/// `v.clamp(lo, hi)`.
pub open spec fn clamp(v: u32, lo: u32, hi: u32) -> u32 {
    if v < lo { lo } else if v > hi { hi } else { v }
}

impl Settings {
    /// The signal refresh interval, kept between 5 and 60 seconds.
    pub fn normalized_refresh_seconds(&self) -> (r: u32)
        ensures
            r == clamp(self.signal_refresh_seconds, 5, 60),
            5 <= r <= 60,
            self.signal_refresh_seconds < 5 ==> r == 5,
            self.signal_refresh_seconds > 60 ==> r == 60,
            5 <= self.signal_refresh_seconds <= 60 ==> r == self.signal_refresh_seconds,
    {
        if self.signal_refresh_seconds < 5 {
            5
        } else if self.signal_refresh_seconds > 60 {
            60
        } else {
            self.signal_refresh_seconds
        }
    }

    /// The traffic refresh interval, kept between 1 and 30 seconds.
    pub fn normalized_traffic_refresh_seconds(&self) -> (r: u32)
        ensures
            r == clamp(self.traffic_refresh_seconds, 1, 30),
            1 <= r <= 30,
            self.traffic_refresh_seconds < 1 ==> r == 1,
            self.traffic_refresh_seconds > 30 ==> r == 30,
            1 <= self.traffic_refresh_seconds <= 30 ==> r == self.traffic_refresh_seconds,
    {
        if self.traffic_refresh_seconds < 1 {
            1
        } else if self.traffic_refresh_seconds > 30 {
            30
        } else {
            self.traffic_refresh_seconds
        }
    }
}

/// The configuration directory: `$XDG_CONFIG_HOME` when it is set, else
/// `$HOME/.config`, else `.config`.
pub open spec fn config_home_of(xdg_config_home: Option<Seq<char>>, home: Option<Seq<char>>) -> Seq<char> {
    match xdg_config_home {
        Some(x) => x,
        None => match home {
            Some(h) => join_path(h, ".config"@),
            None => ".config"@,
        },
    }
}

/// The configuration directory, from the values of `XDG_CONFIG_HOME` and
/// `HOME` (`None` where a variable is not set).
pub fn config_home(xdg_config_home: Option<&str>, home: Option<&str>) -> (r: String)
    ensures
        r@ == config_home_of(
            match xdg_config_home { Some(x) => Some(x@), None => None },
            match home { Some(h) => Some(h@), None => None },
        ),
{
    match xdg_config_home {
        Some(x) => x.to_string(),
        None => match home {
            Some(h) => join_path_exec(h, ".config"),
            None => ".config".to_string(),
        },
    }
}

/// The settings file under the configuration directory.
pub fn settings_path(config_home: &str) -> (r: String)
    ensures
        r@ == join_path(config_home@, "modemdeck/settings.json"@),
{
    join_path_exec(config_home, "modemdeck/settings.json")
}

} // verus!
