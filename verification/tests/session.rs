use idlescreen::session::{global_kind, GlobalKind, OverlayRecord, OverlaySession, SessionRequest};

fn ready_session() -> OverlaySession {
    let mut s = OverlaySession::new();
    s.global_announced("wl_compositor", 1);
    s.global_announced("wl_shm", 2);
    s.global_announced("zwlr_layer_shell_v1", 3);
    s.global_announced("wl_output", 40);
    s.global_announced("wl_output", 41);
    s.global_announced("wl_seat", 5);
    s.global_announced("xdg_wm_base", 6);
    s
}

#[test]
fn globals_bind_by_interface_name() {
    assert_eq!(global_kind("wl_compositor"), GlobalKind::Compositor);
    assert_eq!(global_kind("wl_shm"), GlobalKind::Shm);
    assert_eq!(global_kind("zwlr_layer_shell_v1"), GlobalKind::LayerShell);
    assert_eq!(global_kind("wl_output"), GlobalKind::Output);
    assert_eq!(global_kind("wl_seat"), GlobalKind::Seat);
    assert_eq!(global_kind("wl_output2"), GlobalKind::Other);
    let s = ready_session();
    assert!(s.surfaces_supported && s.shm_bound && s.has_seat);
    assert_eq!(s.outputs, vec![40, 41]);
    assert!(!s.visible);
}

#[test]
fn surfaces_need_both_compositor_and_layer_shell() {
    let mut s = OverlaySession::new();
    s.global_announced("wl_compositor", 1);
    s.global_announced("wl_output", 7);
    assert!(!s.surfaces_supported);
    assert!(!s.create_overlay(7));
    let requests = s.show_screensaver();
    assert_eq!(requests, vec![SessionRequest::ArmDismissGrace, SessionRequest::ClearLayouts]);
    assert!(s.visible);
    assert!(s.overlays.is_empty());
}

#[test]
fn showing_creates_an_overlay_per_output_once() {
    let mut s = ready_session();
    assert!(s.create_overlay(41));
    assert!(!s.create_overlay(41));
    assert!(!s.create_overlay(99));
    let requests = s.show_solid([10, 20, 30]);
    assert_eq!(
        requests,
        vec![
            SessionRequest::ArmDismissGrace,
            SessionRequest::ClearLayouts,
            SessionRequest::CreateSurface(40),
        ]
    );
    assert_eq!(s.overlays.len(), 2);
    assert_eq!(s.solid_color, Some([10, 20, 30]));
    assert!(!s.screensaver_mode);
    assert!(!s.accepts_frame(40));
}

#[test]
fn screensaver_frames_need_an_overlay() {
    let mut s = ready_session();
    s.pointer_entered(77);
    let requests = s.show_screensaver();
    assert_eq!(
        requests,
        vec![
            SessionRequest::ArmDismissGrace,
            SessionRequest::ClearLayouts,
            SessionRequest::HidePointer(77),
            SessionRequest::CreateSurface(40),
            SessionRequest::CreateSurface(41),
        ]
    );
    assert!(s.accepts_frame(40));
    assert!(!s.accepts_frame(42));
    assert!(s.overlay_configured(40, 1920, 1080));
    assert_eq!(s.overlays[&40], OverlayRecord { width: 1920, height: 1080 });
    assert!(!s.overlay_configured(42, 800, 600));
    assert!(s.remove_overlay(41));
    assert!(!s.remove_overlay(41));
    assert!(!s.accepts_frame(41));
}

#[test]
fn input_hides_only_after_grace() {
    let mut s = ready_session();
    s.show_screensaver();
    assert!(s.input_received(true).is_empty());
    assert!(s.visible);
    let requests = s.input_received(false);
    assert_eq!(
        requests,
        vec![
            SessionRequest::ClearLayouts,
            SessionRequest::DestroySurface(40),
            SessionRequest::DestroySurface(41),
        ]
    );
    assert!(!s.visible && !s.screensaver_mode && s.overlays.is_empty());
    assert!(s.input_received(false).is_empty());
}

#[test]
fn pointer_motion_hides_pointer_then_dismisses() {
    let mut s = ready_session();
    assert_eq!(s.pointer_entered(5), None);
    s.show_solid([0, 0, 0]);
    assert_eq!(s.pointer_entered(9), Some(9));
    let during_grace = s.pointer_moved(true);
    assert_eq!(during_grace, vec![SessionRequest::HidePointer(9)]);
    let after = s.pointer_moved(false);
    assert_eq!(after[0], SessionRequest::HidePointer(9));
    assert_eq!(after[1], SessionRequest::ClearLayouts);
    assert_eq!(after.len(), 4);
    assert!(!s.visible);
    assert_eq!(s.solid_color, None);
}

#[test]
fn hiding_destroys_every_overlay() {
    let mut s = ready_session();
    s.show_screensaver();
    s.remove_overlay(40);
    let requests = s.hide_overlays();
    assert_eq!(requests, vec![SessionRequest::ClearLayouts, SessionRequest::DestroySurface(41)]);
    assert!(s.overlays.is_empty());
}
