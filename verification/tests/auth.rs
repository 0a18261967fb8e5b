use idlescreen::auth::{
    classify_peer_exe, comm_from_proc, comm_matches_trusted, is_trusted_control_peer,
    trusted_control_peers, uid_matches, PeerExeCheck, PeerExeFacts, COMM_MAX,
};

fn peers() -> Vec<String> {
    trusted_control_peers()
}

#[test]
fn trusted_peer_names_are_fixed() {
    let p = peers();
    let has = |n: &str| p.iter().any(|x| x == n);
    assert!(has("idle"));
    assert!(has("trance"));
    assert!(has("trance-applet"));
    assert!(has("trance-tui"));
    assert!(has("idle-cli"));
    assert!(has("idle-tui"));
    assert!(has("idle-applet"));
    assert!(has("idlescreen"));
    assert!(!has("bash"));
    assert!(!has("python3"));
    assert!(!has("idle-daemon"));
}

#[test]
fn trusted_peer_names_fit_linux_comm() {
    for name in peers() {
        assert!(name.len() <= 15, "{name:?} exceeds COMM_MAX; update comm_matches_trusted");
        assert!(comm_matches_trusted(&name));
    }
}

#[test]
fn comm_matches_trusted_exact_and_truncated() {
    assert!(comm_matches_trusted("idle"));
    assert!(comm_matches_trusted("idle-cli"));
    assert!(comm_matches_trusted("trance-applet"));
    assert!(comm_matches_trusted("  idle  "));
    assert!(!comm_matches_trusted("bash"));
    assert!(!comm_matches_trusted("python3"));
    assert!(!comm_matches_trusted(""));
    assert!(!comm_matches_trusted("   "));
    assert!(!comm_matches_trusted("idle-cli-extra-long-name"));
    assert!(!comm_matches_trusted("idlescreen-extra"));
}

#[test]
fn comm_max_is_fifteen() {
    assert_eq!(COMM_MAX, 15);
}

#[test]
fn comm_from_proc_trims_and_rejects_blank() {
    assert_eq!(comm_from_proc("idle-cli\n"), Some("idle-cli".to_string()));
    assert_eq!(comm_from_proc("  \n"), None);
}

#[test]
fn uid_must_be_present_and_equal() {
    assert!(uid_matches(Some(1000), Some(1000)));
    assert!(!uid_matches(Some(1000), Some(1001)));
    assert!(!uid_matches(Some(1000), None));
    assert!(!uid_matches(None, Some(1000)));
}

#[test]
fn unreadable_exe_is_classified_unreadable() {
    assert_eq!(classify_peer_exe(&None), PeerExeCheck::Unreadable);
}

#[test]
fn untrusted_basename_never_matches_comm_policy() {
    for bad in ["sh", "curl", "systemd", "idle-daemon", "idle_daemon"] {
        assert!(!comm_matches_trusted(bad), "{bad} must not be trusted");
    }
}

#[test]
fn same_uid_with_unreadable_exe_and_comm_is_denied() {
    assert!(!is_trusted_control_peer(false, true, PeerExeCheck::Unreadable, PeerExeCheck::Unreadable, &None));
}

#[test]
fn missing_or_wrong_uid_is_denied_whatever_the_exe() {
    let comm = Some("idle-cli".to_string());
    assert!(!is_trusted_control_peer(false, false, PeerExeCheck::Trusted, PeerExeCheck::Trusted, &comm));
    assert!(!is_trusted_control_peer(false, false, PeerExeCheck::Unreadable, PeerExeCheck::Unreadable, &comm));
}

#[test]
fn trusted_exe_must_stay_trusted_on_recheck() {
    assert!(is_trusted_control_peer(false, true, PeerExeCheck::Trusted, PeerExeCheck::Trusted, &None));
    assert!(!is_trusted_control_peer(false, true, PeerExeCheck::Trusted, PeerExeCheck::Untrusted, &None));
    assert!(!is_trusted_control_peer(false, true, PeerExeCheck::Untrusted, PeerExeCheck::Trusted, &None));
}

#[test]
fn unreadable_exe_falls_back_to_comm() {
    let comm = Some("idle-cli".to_string());
    assert!(is_trusted_control_peer(false, true, PeerExeCheck::Unreadable, PeerExeCheck::Unreadable, &comm));
    let bad = Some("bash".to_string());
    assert!(!is_trusted_control_peer(false, true, PeerExeCheck::Unreadable, PeerExeCheck::Unreadable, &bad));
}

#[test]
fn trust_all_accepts_anyone() {
    assert!(is_trusted_control_peer(true, false, PeerExeCheck::Untrusted, PeerExeCheck::Untrusted, &None));
}

#[test]
fn system_exe_classification() {
    let facts = |name: &str, parent: &str, mode: u32, uid: u32| {
        Some(PeerExeFacts {
            file_name: Some(name.to_string()),
            parent: parent.to_string(),
            dev_same_dir: false,
            metadata: Some((mode, uid)),
        })
    };
    assert_eq!(classify_peer_exe(&facts("idle-cli", "/usr/bin", 0o755, 0)), PeerExeCheck::Trusted);
    assert_eq!(classify_peer_exe(&facts("idle-cli", "/usr/local/bin", 0o755, 65534)), PeerExeCheck::Trusted);
    assert_eq!(classify_peer_exe(&facts("idle-cli", "/usr/bin", 0o757, 0)), PeerExeCheck::Untrusted);
    assert_eq!(classify_peer_exe(&facts("idle-cli", "/usr/bin", 0o755, 1000)), PeerExeCheck::Untrusted);
    assert_eq!(classify_peer_exe(&facts("idle-cli", "/home/u/bin", 0o755, 0)), PeerExeCheck::Untrusted);
    assert_eq!(classify_peer_exe(&facts("bash", "/usr/bin", 0o755, 0)), PeerExeCheck::Untrusted);
    let dev = Some(PeerExeFacts {
        file_name: Some("idle-cli".to_string()),
        parent: "/home/u/target/debug".to_string(),
        dev_same_dir: true,
        metadata: Some((0o755, 1000)),
    });
    assert_eq!(classify_peer_exe(&dev), PeerExeCheck::Trusted);
}
