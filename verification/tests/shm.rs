use idlescreen::path_safety::is_valid_shm_name;
use idlescreen::shm::{
    check_shm_request, header_cell_count, session_shm_name, session_socket_name, session_socket_path, runner_args, ShmError,
    SHM_MAX_SIZE,
};

#[test]
fn session_names_follow_the_daemon_format() {
    assert_eq!(session_shm_name(1234, 0), "/trance-shm-1234-0");
    assert_eq!(session_socket_name(42, 7), "trance-uds-42-7.sock");
    let worst = session_shm_name(u32::MAX, u64::MAX);
    assert!(is_valid_shm_name(&worst), "{worst}");
}

#[test]
fn create_rejects_bad_name() {
    match check_shm_request("/evil", 4096, 16) {
        Err(e @ ShmError::InvalidName(_)) => assert!(e.message().contains("invalid shm name")),
        other => panic!("unexpected {other:?}"),
    }
}

#[test]
fn create_rejects_tiny_size() {
    assert!(matches!(check_shm_request("/trance-shm-1-0", 1, 16), Err(ShmError::SizeOutOfRange(1))));
    assert!(matches!(check_shm_request("/trance-shm-1-0", 15, 16), Err(ShmError::SizeOutOfRange(15))));
    assert!(check_shm_request("/trance-shm-1-0", 16, 16).is_ok());
}

#[test]
fn create_rejects_oversized() {
    assert!(matches!(
        check_shm_request("/trance-shm-1-0", SHM_MAX_SIZE + 1, 16),
        Err(ShmError::SizeOutOfRange(_))
    ));
    assert!(check_shm_request("/trance-shm-1-0", SHM_MAX_SIZE, 16).is_ok());
    assert_eq!(SHM_MAX_SIZE, 64 * 1024 * 1024);
}

#[test]
fn header_checks_magic_and_fit() {
    let magic = 0x5452_4E43u32;
    assert_eq!(header_cell_count(0, 4, 2, 16 + 8 * 12, 16, 12, magic).ok(), Some(8));
    assert_eq!(header_cell_count(magic, 4, 2, 16 + 8 * 12, 16, 12, magic).ok(), Some(8));
    assert!(matches!(
        header_cell_count(0xDEAD_BEEF, 4, 2, 1 << 20, 16, 12, magic),
        Err(ShmError::BadMagic { found: 0xDEAD_BEEF, .. })
    ));
    match header_cell_count(0, 4, 2, 16 + 8 * 12 - 1, 16, 12, magic) {
        Err(ShmError::DimsExceedMap { cols: 4, rows: 2, needed, map_size }) => {
            assert_eq!(needed, 16 + 8 * 12);
            assert_eq!(map_size, needed - 1);
        }
        other => panic!("unexpected {other:?}"),
    }
}

#[test]
fn session_socket_prefers_runtime_dir() {
    assert_eq!(
        session_socket_path(Some("/run/user/1000"), true, "/tmp", 42, 0),
        "/run/user/1000/trance-uds-42-0.sock"
    );
    assert_eq!(
        session_socket_path(Some("/run/user/1000"), false, "/tmp", 42, 3),
        "/tmp/trance-uds-42-3.sock"
    );
    assert_eq!(session_socket_path(None, false, "/tmp/", 1, 2), "/tmp/trance-uds-1-2.sock");
}

#[test]
fn runner_starts_with_session_arguments() {
    let args = runner_args(
        "matrix",
        "/run/user/1000/trance-uds-42-0.sock",
        "/trance-shm-42-0",
        120,
        40,
        true,
        "0.500000",
    );
    assert_eq!(
        args,
        vec![
            "run-ipc-runner",
            "matrix",
            "/run/user/1000/trance-uds-42-0.sock",
            "/trance-shm-42-0",
            "120",
            "40",
            "true",
            "0.500000",
        ]
    );
    assert_eq!(runner_args("x", "s", "/m", 0, 1, false, "1.000000")[6], "false");
}

#[test]
fn refusal_messages_carry_the_numbers() {
    assert_eq!(ShmError::InvalidName("x".to_string()).message(), "invalid shm name: x");
    assert_eq!(ShmError::SizeOutOfRange(3).message(), "shm size out of range: 3");
    assert_eq!(
        ShmError::BadMagic { found: 0xdead_beef, expected: 0x1f }.message(),
        format!("shm header magic {:#x} != expected {:#x}", 0xdead_beefu32, 0x1fu32)
    );
    assert_eq!(ShmError::BadMagic { found: 0, expected: 10 }.message(), "shm header magic 0x0 != expected 0xa");
    assert_eq!(ShmError::CellCountOverflow.message(), "shm header cell count overflow");
    assert_eq!(ShmError::CellBytesOverflow.message(), "shm cell byte count overflow");
    assert_eq!(ShmError::SizeOverflow.message(), "shm size overflow");
    assert_eq!(
        ShmError::DimsExceedMap { cols: 80, rows: 24, needed: 30736, map_size: 4096 }.message(),
        "shm header dims 80x24 need 30736 bytes, map is 4096"
    );
}

#[test]
fn bad_magic_is_reported_before_size_problems() {
    match header_cell_count(0xdead_beef, u32::MAX, u32::MAX, 64, 16, 16, 0x1f) {
        Err(ShmError::BadMagic { found, expected }) => {
            assert_eq!(found, 0xdead_beef);
            assert_eq!(expected, 0x1f);
        }
        other => panic!("expected a magic error, got {other:?}"),
    }
    match header_cell_count(0xdead_beef, 4, 2, 16, 16, 16, 0x1f) {
        Err(e) => assert!(e.message().contains("magic")),
        Ok(_) => panic!("expected a magic error"),
    }
}
