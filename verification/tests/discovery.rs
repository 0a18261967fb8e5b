use idlescreen::discovery::{detect_screensavers_in, is_safe_data_root, screensaver_dirs, PluginFile};
use idlescreen::launcher::allowed_savers;

#[test]
fn safe_data_root_rejects_relative_and_dotdot() {
    assert!(is_safe_data_root("/usr/share"));
    assert!(is_safe_data_root("/home/user/.local/share"));
    assert!(!is_safe_data_root(""));
    assert!(!is_safe_data_root("relative/path"));
    assert!(!is_safe_data_root("./local"));
    assert!(!is_safe_data_root("~/share"));
    assert!(!is_safe_data_root("/usr/share/../etc"));
    assert!(!is_safe_data_root("/tmp/\0evil"));
    assert!(!is_safe_data_root(".."));
}

#[test]
fn safe_data_root_accepts_absolute_without_parent() {
    assert!(is_safe_data_root("/var/lib/idle"));
    assert!(is_safe_data_root("/home/user"));
    assert!(is_safe_data_root("/usr/./share"));
}

#[test]
fn system_dirs_precede_user_dirs() {
    let dirs = screensaver_dirs(None, None, Some("/home/user"));
    let usr = dirs.iter().position(|p| p.starts_with("/usr"));
    let home = dirs.iter().position(|p| p.split('/').any(|c| c == ".local"));
    assert!(usr.is_some(), "expected at least one /usr plugin dir");
    let (u, h) = (usr.unwrap(), home.expect("home dirs present"));
    assert!(u < h, "system dirs must be searched before user dirs: {dirs:?}");
}

#[test]
fn idle_system_path_is_first() {
    let dirs = screensaver_dirs(None, None, None);
    assert_eq!(dirs.first().map(|p| p.as_str()), Some("/usr/libexec/idle/screensavers"));
}

#[test]
fn legacy_trance_path_still_searched() {
    let dirs = screensaver_dirs(None, None, Some("/home/user"));
    assert!(dirs
        .iter()
        .any(|p| p.ends_with("trance/screensavers") || p == "/usr/libexec/trance/screensavers"));
}

#[test]
fn relative_xdg_data_home_not_injected_into_dirs() {
    let dirs = screensaver_dirs(Some("/usr/share"), Some("relative/evil-home"), Some("/home/user"));
    for p in &dirs {
        assert!(!p.contains("relative/evil-home"), "relative XDG_DATA_HOME leaked: {p}");
    }
    assert!(dirs.iter().any(|p| p.starts_with("/usr")));
}

#[test]
fn relative_xdg_data_dirs_entries_skipped() {
    let dirs = screensaver_dirs(Some("relative/share:/usr/share:../up"), None, None);
    for p in &dirs {
        assert!(p.starts_with('/'), "relative entry leaked: {p}");
    }
    assert!(dirs.iter().any(|p| p == "/usr/share/idle/screensavers"));
}

#[test]
fn relative_home_not_used_as_user_root() {
    let dirs = screensaver_dirs(None, None, Some("relative-home"));
    for p in &dirs {
        assert!(!p.contains("relative-home"), "relative HOME leaked: {p}");
    }
    assert!(dirs.iter().any(|p| p.starts_with("/usr")));
}

#[test]
fn xdg_data_home_adds_brand_dirs_last() {
    let dirs = screensaver_dirs(Some("/opt/share"), Some("/home/u/.data"), None);
    let n = dirs.len();
    assert_eq!(dirs[n - 2], "/home/u/.data/idle/screensavers");
    assert_eq!(dirs[n - 1], "/home/u/.data/trance/screensavers");
}

#[test]
fn detect_screensavers_includes_allowlist() {
    let files = vec![
        PluginFile { name: Some("libscreensaver_beams.so".to_string()), is_file: true, has_so_extension: true, mode: 0o644 },
        PluginFile { name: Some("evil.so".to_string()), is_file: true, has_so_extension: true, mode: 0o644 },
        PluginFile { name: None, is_file: true, has_so_extension: true, mode: 0o755 },
    ];
    let savers = detect_screensavers_in(&files);
    assert!(!savers.is_empty());
    for name in allowed_savers() {
        assert!(savers.contains(&name), "{name} missing");
    }
    assert_eq!(savers, allowed_savers());
}
