//! Upscaler and frame-rate settings read from the environment: what each
//! value selects. Reading the variables happens outside.

use vstd::prelude::*;

use crate::text::{opt_view, parse_unsigned, str_chars, chars_equal};

verus! {

/// Sampling filter of the upscaler.
#[derive(Clone, Copy, Debug, PartialEq, Eq, Structural)]
pub enum FilterMode {
    Nearest,
    Linear,
}

/// Whether `s` is exactly `w`.
fn is_text(s: &str, w: &str) -> (r: bool)
    ensures
        r == (s@ == w@),
{
    let a = str_chars(s);
    let b = str_chars(w);
    chars_equal(&a, b.as_slice())
}

/// The filter `TRANCE_GPU_FILTER` selects (`None` when unset): `nearest`, else linear.
pub open spec fn filter_mode_spec(value: Option<Seq<char>>) -> FilterMode {
    match value {
        Some(v) => if v == "nearest"@ {
            FilterMode::Nearest
        } else {
            FilterMode::Linear
        },
        None => FilterMode::Linear,
    }
}

impl FilterMode {
    /// The filter a value of `TRANCE_GPU_FILTER` selects.
    pub fn from_value(value: Option<&str>) -> (m: FilterMode)
        ensures
            m == filter_mode_spec(opt_view(value)),
    {
        match value {
            Some(v) => if is_text(v, "nearest") {
                FilterMode::Nearest
            } else {
                FilterMode::Linear
            },
            None => FilterMode::Linear,
        }
    }
}

/// GPU upscaling is attempted unless `TRANCE_GPU` is `0`, `false` or `off`.
pub open spec fn gpu_enabled_spec(value: Option<Seq<char>>) -> bool {
    match value {
        Some(v) => !(v == "0"@ || v == "false"@ || v == "off"@),
        None => true,
    }
}

/// Whether a value of `TRANCE_GPU` leaves GPU upscaling on.
pub fn gpu_enabled_from(value: Option<&str>) -> (r: bool)
    ensures
        r == gpu_enabled_spec(opt_view(value)),
{
    match value {
        Some(v) => !(is_text(v, "0") || is_text(v, "false") || is_text(v, "off")),
        None => true,
    }
}

/// The frame-rate cap `TRANCE_MAX_FPS` sets: its value as a `u32`, else 0 (no cap).
pub fn max_fps_from(value: Option<&str>) -> (cap: u32)
    ensures
        cap == match value {
            Some(v) => match parse_unsigned(v@, u32::MAX as nat) {
                Some(n) => n as u32,
                None => 0,
            },
            None => 0,
        },
{
    match value {
        Some(v) => match crate::cli::parse_u32(v) {
            Some(n) => n,
            None => 0,
        },
        None => 0,
    }
}

/// Frames per second to present at: the detected refresh rate (at least 60),
/// limited by `cap` unless it is 0.
pub fn target_fps(detected_refresh_hz: u32, cap: u32) -> (fps: u32)
    ensures
        fps == ({
            let detected = if detected_refresh_hz >= 60 {
                detected_refresh_hz
            } else {
                60
            };
            if cap == 0 || detected <= cap {
                detected
            } else {
                cap
            }
        }),
{
    let detected = if detected_refresh_hz >= 60 {
        detected_refresh_hz
    } else {
        60
    };
    if cap == 0 {
        detected
    } else if detected <= cap {
        detected
    } else {
        cap
    }
}

/// A variable reads exactly `1`.
pub open spec fn is_one(value: Option<Seq<char>>) -> bool {
    value == Some("1"@)
}

fn value_is_one(value: Option<&str>) -> (r: bool)
    ensures
        r == is_one(opt_view(value)),
{
    match value {
        Some(v) => is_text(v, "1"),
        None => false,
    }
}

/// Whether local development plugin trees may be searched: always in debug
/// builds, otherwise when `IDLE_DEV_PLUGINS` or `TRANCE_DEV_PLUGINS` is `1`.
pub fn dev_plugins_enabled(debug_build: bool, idle_value: Option<&str>, trance_value: Option<&str>) -> (r:
    bool)
    ensures
        r == (debug_build || is_one(opt_view(idle_value)) || is_one(opt_view(trance_value))),
{
    debug_build || value_is_one(idle_value) || value_is_one(trance_value)
}

/// Whether every D-Bus peer is trusted: only in debug builds, and only when
/// `IDLE_DBUS_TRUST_ALL` or `TRANCE_DBUS_TRUST_ALL` is `1`.
pub fn dbus_trust_all_enabled(debug_build: bool, idle_value: Option<&str>, trance_value: Option<&str>) -> (r:
    bool)
    ensures
        r == (debug_build && (is_one(opt_view(idle_value)) || is_one(opt_view(trance_value)))),
        !debug_build ==> !r,
{
    debug_build && (value_is_one(idle_value) || value_is_one(trance_value))
}

/// Where the daemon's pid file lives: `$XDG_RUNTIME_DIR/trance-daemon.pid`,
/// else in the temporary directory.
pub fn pid_file_path(runtime_dir: Option<&str>, temp_dir: &str) -> (p: String)
    ensures
        p@ == crate::discovery::path_join(
            match runtime_dir {
                Some(d) => d@,
                None => temp_dir@,
            },
            "trance-daemon.pid"@,
        ),
{
    let base = match runtime_dir {
        Some(d) => str_chars(d),
        None => str_chars(temp_dir),
    };
    let mut v: Vec<char> = Vec::new();
    crate::text::push_all(&mut v, base.as_slice());
    let name = str_chars("trance-daemon.pid");
    crate::discovery::join_chars(&mut v, name.as_slice());
    crate::text::string_from_chars(&v)
}

/// What `trance clean` does with the daemon's pid file.
#[derive(Clone, Copy, Debug, PartialEq, Eq, Structural)]
pub enum PidCleanup {
    /// There is none.
    Absent,
    /// The daemon runs: the file is in use and stays.
    KeepActive,
    /// The daemon does not run: the file is stale and is deleted.
    RemoveStale,
}

/// The pid-file step of `trance clean`, given whether the file exists and
/// whether the daemon answers on the bus.
pub fn pid_cleanup(exists: bool, daemon_running: bool) -> (c: PidCleanup)
    ensures
        c == (if !exists {
            PidCleanup::Absent
        } else if daemon_running {
            PidCleanup::KeepActive
        } else {
            PidCleanup::RemoveStale
        }),
{
    if !exists {
        PidCleanup::Absent
    } else if daemon_running {
        PidCleanup::KeepActive
    } else {
        PidCleanup::RemoveStale
    }
}

/// The user's cache directory that `trance clean` clears: `$HOME/.cache/trance`.
pub fn cache_dir_path(home: &str) -> (p: String)
    ensures
        p@ == crate::discovery::path_join(
            crate::discovery::path_join(home@, ".cache"@),
            "trance"@,
        ),
{
    let mut v: Vec<char> = str_chars(home);
    let cache = str_chars(".cache");
    crate::discovery::join_chars(&mut v, cache.as_slice());
    let name = str_chars("trance");
    crate::discovery::join_chars(&mut v, name.as_slice());
    crate::text::string_from_chars(&v)
}

} // verus!
