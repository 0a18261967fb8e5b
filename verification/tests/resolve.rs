use idlescreen::launcher::LaunchMode;
use idlescreen::resolve::{
    dev_plugin_dirs, is_under_trusted_root, plugin_search_plan, resolve_saver_binary, trusted_plugin_dirs, PluginProbe,
    ResolveError,
};

fn probe(is_file: bool, trusted: bool) -> PluginProbe {
    PluginProbe { is_file, trusted }
}

#[test]
fn dev_dirs_need_home_and_enablement() {
    assert!(dev_plugin_dirs("beams", Some("/home/u"), false).is_empty());
    assert!(dev_plugin_dirs("beams", None, true).is_empty());
    let dirs = dev_plugin_dirs("beams", Some("/home/u"), true);
    assert_eq!(dirs.len(), 10);
    assert_eq!(dirs[0], "/home/u/Projects/crateria/trance-plugins/target/release");
    assert_eq!(dirs[3], "/home/u/Projects/crateria/trance-plugins/beams/target/debug");
    assert_eq!(dirs[4], "/home/u/Projects/ubermetroid/trance-plugins/target/release");
    assert_eq!(dirs[9], "/home/u/Projects/trance-plugin-beams/target/debug");
}

#[test]
fn preview_mode_searches_dev_trees_after_installed_dirs() {
    let installed = vec!["/usr/libexec/idle/screensavers".to_string()];
    let dev = vec!["/home/u/dev".to_string()];
    let plan = plugin_search_plan("beams", LaunchMode::Preview, &installed, &dev);
    assert_eq!(plan.len(), 3);
    assert_eq!(plan[0][0], "/usr/libexec/idle/screensavers/libscreensaver_beams.so");
    assert_eq!(plan[1][1], "/home/u/dev/libbeams.so");
    assert_eq!(plan[2][2], "/home/u/dev/beams");
    let daemon = plugin_search_plan("beams", LaunchMode::Daemon, &installed, &dev);
    assert_eq!(daemon.len(), 1);
    assert_eq!(trusted_plugin_dirs(&installed, &dev, LaunchMode::Preview).len(), 2);
    assert_eq!(trusted_plugin_dirs(&installed, &dev, LaunchMode::Daemon), installed);
}

#[test]
fn first_trusted_file_wins() {
    let installed = vec!["/a".to_string(), "/b".to_string()];
    let dev: Vec<String> = Vec::new();
    let probes = vec![
        vec![probe(false, false), probe(true, false), probe(true, true)],
        vec![probe(false, false), probe(false, false), probe(true, true)],
    ];
    let r = resolve_saver_binary("libscreensaver_beams.so", &LaunchMode::Daemon, &installed, &dev, &probes);
    assert_eq!(r.ok(), Some("/b/beams".to_string()));
}

#[test]
fn nothing_trusted_is_not_found() {
    let installed = vec!["/a".to_string()];
    let dev: Vec<String> = Vec::new();
    let probes = vec![vec![probe(true, false), probe(true, true), probe(false, false)]];
    match resolve_saver_binary("beams", &LaunchMode::Daemon, &installed, &dev, &probes) {
        Err(e @ ResolveError::NotFound { .. }) => {
            assert_eq!(e.message(), "no trusted plugin found for saver 'beams' (mode Daemon)")
        }
        other => panic!("unexpected {other:?}"),
    }
}

#[test]
fn refused_names_are_reported_before_any_search() {
    let installed = vec!["/a".to_string()];
    let probes = vec![vec![probe(true, true)]];
    assert!(matches!(
        resolve_saver_binary("../beams", &LaunchMode::Preview, &installed, &Vec::new(), &probes),
        Err(ResolveError::Name(_))
    ));
    assert!(matches!(
        resolve_saver_binary("evil", &LaunchMode::Preview, &installed, &Vec::new(), &probes),
        Err(ResolveError::Name(_))
    ));
}

#[test]
fn trusted_root_prefix_follows_path_components() {
    let roots = vec!["/usr/lib/trance/savers".to_string(), "/".to_string()];
    let only = vec!["/usr/lib/trance/savers".to_string()];
    assert!(is_under_trusted_root("/usr/lib/trance/savers/libbeams.so", &only));
    assert!(is_under_trusted_root("/usr/lib/trance/savers", &only));
    assert!(!is_under_trusted_root("/usr/lib/trance/savers-evil/libbeams.so", &only));
    assert!(!is_under_trusted_root("/usr/lib/trance", &only));
    assert!(!is_under_trusted_root("/tmp/libbeams.so", &Vec::new()));
    assert!(is_under_trusted_root("/tmp/libbeams.so", &roots));
}
