use idlescreen::launcher::{
    allowed_savers, cleaned_allowed_name, is_allowed_saver, plugin_candidate_names,
    sanitize_saver_name, SaverNameError,
};

#[test]
fn sanitize_strips_library_and_package_forms() {
    assert_eq!(sanitize_saver_name("beams"), Some("beams".to_string()));
    assert_eq!(sanitize_saver_name("libscreensaver_beams.so"), Some("beams".to_string()));
    assert_eq!(sanitize_saver_name("libbeams.so"), Some("beams".to_string()));
    assert_eq!(sanitize_saver_name("screensaver-storm"), Some("storm".to_string()));
    assert_eq!(sanitize_saver_name("idle-saver-ripple"), Some("ripple".to_string()));
    assert_eq!(sanitize_saver_name("/usr/lib/libscreensaver_chaos.so"), Some("chaos".to_string()));
}

#[test]
fn sanitize_rejects_odd_characters_and_empty() {
    assert_eq!(sanitize_saver_name("bad name"), None);
    assert_eq!(sanitize_saver_name("semi;colon"), None);
    assert_eq!(sanitize_saver_name("lib"), None);
    assert_eq!(sanitize_saver_name(""), None);
}

#[test]
fn every_allowlisted_name_is_allowed_and_clean() {
    let names = allowed_savers();
    assert_eq!(names.len(), 10);
    for n in &names {
        assert!(is_allowed_saver(n));
        assert_eq!(sanitize_saver_name(n).as_deref(), Some(n.as_str()));
    }
}

#[test]
fn paths_and_unknown_names_are_not_allowed() {
    assert!(!is_allowed_saver("../beams"));
    assert!(!is_allowed_saver("dir\\beams"));
    assert!(!is_allowed_saver("evil"));
    assert!(is_allowed_saver("libscreensaver_glyphs.so"));
}

#[test]
fn cleaned_allowed_name_reports_each_refusal() {
    assert_eq!(cleaned_allowed_name("idle-saver-hearth").ok(), Some("hearth".to_string()));
    match cleaned_allowed_name("a/b") {
        Err(SaverNameError::IsPath(n)) => assert_eq!(n, "a/b"),
        other => panic!("unexpected {other:?}"),
    }
    match cleaned_allowed_name("bad name") {
        Err(SaverNameError::Invalid(n)) => assert_eq!(n, "bad name"),
        other => panic!("unexpected {other:?}"),
    }
    match cleaned_allowed_name("libevil.so") {
        Err(e @ SaverNameError::NotAllowed(_)) => {
            assert_eq!(e.message(), "screensaver 'evil' is not in the trusted allowlist")
        }
        other => panic!("unexpected {other:?}"),
    }
}

#[test]
fn candidate_names_follow_library_conventions() {
    let names = plugin_candidate_names("radar");
    assert_eq!(names, vec!["libscreensaver_radar.so".to_string(), "libradar.so".to_string(), "radar".to_string()]);
}

#[test]
fn name_refusal_messages_quote_the_name() {
    assert_eq!(
        SaverNameError::IsPath("a/b".to_string()).message(),
        "saver name must not be a path: a/b"
    );
    assert_eq!(
        SaverNameError::Invalid("bad name".to_string()).message(),
        "unknown or invalid screensaver name: bad name"
    );
}
