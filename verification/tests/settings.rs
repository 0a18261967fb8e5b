use idlescreen::settings::{
    cache_dir_path, dbus_trust_all_enabled, dev_plugins_enabled, gpu_enabled_from, max_fps_from,
    pid_cleanup, pid_file_path, PidCleanup,
    target_fps, FilterMode,
};

#[test]
fn filter_mode_from_env_defaults_to_linear() {
    assert_eq!(FilterMode::from_value(None), FilterMode::Linear);
}

#[test]
fn filter_mode_from_env_recognizes_nearest() {
    assert_eq!(FilterMode::from_value(Some("nearest")), FilterMode::Nearest);
}

#[test]
fn filter_mode_from_env_unknown_falls_back_to_linear() {
    assert_eq!(FilterMode::from_value(Some("cubic")), FilterMode::Linear);
}

#[test]
fn gpu_is_on_unless_switched_off() {
    assert!(gpu_enabled_from(None));
    assert!(gpu_enabled_from(Some("1")));
    assert!(!gpu_enabled_from(Some("0")));
    assert!(!gpu_enabled_from(Some("false")));
    assert!(!gpu_enabled_from(Some("off")));
}

#[test]
fn max_fps_zero_when_unset() {
    assert_eq!(max_fps_from(None), 0);
    assert_eq!(max_fps_from(Some("x")), 0);
    assert_eq!(max_fps_from(Some("90")), 90);
}

#[test]
fn target_fps_matches_detected_when_unset() {
    assert_eq!(target_fps(144, 0), 144);
    assert_eq!(target_fps(30, 0), 60);
    assert_eq!(target_fps(144, 90), 90);
    assert_eq!(target_fps(60, 90), 60);
}

#[test]
fn dbus_trust_all_env_only_in_debug_builds() {
    assert!(!dbus_trust_all_enabled(false, Some("1"), Some("1")));
    assert!(dbus_trust_all_enabled(true, Some("1"), None));
    assert!(dbus_trust_all_enabled(true, None, Some("1")));
    assert!(!dbus_trust_all_enabled(true, Some("yes"), None));
}

#[test]
fn dev_plugins_in_debug_or_on_request() {
    assert!(dev_plugins_enabled(true, None, None));
    assert!(dev_plugins_enabled(false, None, Some("1")));
    assert!(!dev_plugins_enabled(false, Some("0"), None));
}

#[test]
fn pid_file_prefers_runtime_dir() {
    assert_eq!(pid_file_path(Some("/run/user/1000"), "/tmp"), "/run/user/1000/trance-daemon.pid");
    assert_eq!(pid_file_path(None, "/tmp/"), "/tmp/trance-daemon.pid");
}

#[test]
fn clean_keeps_active_pid_file_and_removes_stale_one() {
    assert_eq!(pid_cleanup(false, true), PidCleanup::Absent);
    assert_eq!(pid_cleanup(false, false), PidCleanup::Absent);
    assert_eq!(pid_cleanup(true, true), PidCleanup::KeepActive);
    assert_eq!(pid_cleanup(true, false), PidCleanup::RemoveStale);
}

#[test]
fn clean_clears_trance_cache_under_home() {
    assert_eq!(cache_dir_path("/home/ada"), "/home/ada/.cache/trance");
    assert_eq!(cache_dir_path("/home/ada/"), "/home/ada/.cache/trance");
}
