use idlescreen::path_safety::{is_plausible_socket_path, is_valid_shm_name};

#[test]
fn path_safety_shm_name_accepts_daemon_format() {
    assert!(is_valid_shm_name("/trance-shm-1234-0"));
    assert!(is_valid_shm_name("/trance-shm-1-99"));
    assert!(is_valid_shm_name("/trance-shm-test_name-0"));
    assert!(is_valid_shm_name(&format!("/trance-shm-{}", "a".repeat(64))));
}

#[test]
fn path_safety_shm_name_rejects_traversal_and_oddities() {
    assert!(!is_valid_shm_name("trance-shm-1-0"));
    assert!(!is_valid_shm_name("/other-1-0"));
    assert!(!is_valid_shm_name("/trance-shm-../etc"));
    assert!(!is_valid_shm_name("/trance-shm-"));
    assert!(!is_valid_shm_name("/trance-shm-a/b"));
    assert!(!is_valid_shm_name("/trance-shm-a b"));
    assert!(!is_valid_shm_name("/trance-shm-a;b"));
    assert!(!is_valid_shm_name("/TRANCE-SHM-1-0"));
    assert!(!is_valid_shm_name(&format!("/trance-shm-{}", "x".repeat(80))));
    assert!(!is_valid_shm_name(&format!("/trance-shm-{}", "x".repeat(65))));
}

#[test]
fn path_safety_socket_path_rejects_relative_and_dots() {
    assert!(is_plausible_socket_path("/run/user/1000/trance-uds-1-0.sock"));
    assert!(!is_plausible_socket_path("relative.sock"));
    assert!(!is_plausible_socket_path("/tmp/../etc/passwd.sock"));
    assert!(!is_plausible_socket_path("/tmp/foo"));
    assert!(!is_plausible_socket_path(""));
    assert!(!is_plausible_socket_path("/tmp/foo.sock\0x"));
    assert!(!is_plausible_socket_path(&format!("/{}.sock", "a".repeat(108))));
    assert!(!is_plausible_socket_path(&"x".repeat(108)));
}

#[test]
fn socket_path_accepts_tmp_and_runtime() {
    assert!(is_plausible_socket_path("/tmp/trance-uds-1-0.sock"));
    assert!(is_plausible_socket_path("/run/user/1000/idle-uds-42-1.sock"));
    let ok_107 = format!("/{}.sock", "a".repeat(101));
    assert_eq!(ok_107.len(), 107);
    assert!(is_plausible_socket_path(&ok_107));
    let bad_108 = format!("/{}.sock", "a".repeat(102));
    assert_eq!(bad_108.len(), 108);
    assert!(!is_plausible_socket_path(&bad_108));
}

#[test]
fn socket_path_rejects_dotdot_middle_segment() {
    assert!(!is_plausible_socket_path("/run/../user/x.sock"));
    assert!(!is_plausible_socket_path("/a/b/../c.sock"));
}

#[test]
fn shm_tests_shm_name_accepts_daemon_format() {
    assert!(is_valid_shm_name("/trance-shm-1234-0"));
    assert!(is_valid_shm_name("/trance-shm-1-99"));
}

#[test]
fn shm_tests_shm_name_rejects_traversal_and_oddities() {
    assert!(!is_valid_shm_name("trance-shm-1-0"));
    assert!(!is_valid_shm_name("/other-1-0"));
    assert!(!is_valid_shm_name("/trance-shm-../etc"));
    assert!(!is_valid_shm_name("/trance-shm-"));
    assert!(!is_valid_shm_name("/trance-shm-a/b"));
    assert!(!is_valid_shm_name(&format!("/trance-shm-{}", "x".repeat(80))));
}

#[test]
fn shm_tests_socket_path_rejects_relative_and_dots() {
    assert!(is_plausible_socket_path("/run/user/1000/trance-uds-1-0.sock"));
    assert!(!is_plausible_socket_path("relative.sock"));
    assert!(!is_plausible_socket_path("/tmp/../etc/passwd.sock"));
    assert!(!is_plausible_socket_path("/tmp/foo"));
    assert!(!is_plausible_socket_path(""));
}

#[test]
fn shm_name_length_edge_is_sixty_four() {
    assert!(is_valid_shm_name(&format!("/trance-shm-{}", "z".repeat(64))));
    assert!(!is_valid_shm_name(&format!("/trance-shm-{}", "z".repeat(65))));
    assert!(is_valid_shm_name("/trance-shm-a"));
}

#[test]
fn socket_path_needs_sock_suffix_and_leading_slash() {
    assert!(is_plausible_socket_path("/a.sock"));
    assert!(!is_plausible_socket_path("a.sock"));
    assert!(!is_plausible_socket_path("/a.soc"));
}
