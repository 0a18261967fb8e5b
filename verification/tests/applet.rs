use idlescreen::applet::{AppletAction, AppletMessage, AppletState, LocalConfig};
use idlescreen::status::DaemonStatus;

fn local() -> LocalConfig {
    LocalConfig {
        idle_enabled: true,
        idle_timeout_mins: 5,
        active_saver: None,
        gpu_enabled: true,
        show_fps_overlay: false,
        display_mode: "primary".to_string(),
    }
}

fn state() -> AppletState {
    AppletState::new(local(), vec!["beams".to_string(), "storm".to_string(), "radar".to_string()])
}

#[test]
fn new_state_has_defaults() {
    let s = state();
    assert!(!s.daemon_running);
    assert!(s.gpu_enabled);
    assert!(!s.show_fps_overlay);
    assert_eq!(s.display_mode, "primary");
    assert!(s.popup.is_none());
}

#[test]
fn timeout_is_clamped_to_one_and_one_twenty() {
    let mut s = state();
    s.local_config.idle_timeout_mins = 1;
    assert!(matches!(s.update(AppletMessage::DecreaseTimeout, true), AppletAction::Nothing));
    assert_eq!(s.local_config.idle_timeout_mins, 1);
    s.local_config.idle_timeout_mins = 120;
    assert!(matches!(s.update(AppletMessage::IncreaseTimeout, false), AppletAction::Nothing));
    assert_eq!(s.local_config.idle_timeout_mins, 120);
    assert!(matches!(s.update(AppletMessage::DecreaseTimeout, true), AppletAction::SendTimeout(119)));
    assert!(matches!(s.update(AppletMessage::IncreaseTimeout, false), AppletAction::SaveLocalConfig));
    assert_eq!(s.local_config.idle_timeout_mins, 120);
}

#[test]
fn random_clears_the_active_saver() {
    let mut s = state();
    match s.update(AppletMessage::ActiveSaverSelected("storm".to_string()), true) {
        AppletAction::SendActiveSaver(Some(n)) => assert_eq!(n, "storm"),
        _ => panic!("expected the saver to go to the daemon"),
    }
    assert_eq!(s.local_config.active_saver.as_deref(), Some("storm"));
    assert!(matches!(
        s.update(AppletMessage::ActiveSaverSelected("Random".to_string()), true),
        AppletAction::SendActiveSaver(None)
    ));
    assert!(s.local_config.active_saver.is_none());
}

#[test]
fn gpu_toggle_goes_to_daemon_or_disk() {
    let mut s = state();
    assert!(matches!(s.update(AppletMessage::ToggleGpuEnabled(false), true), AppletAction::SendGpuEnabled(false)));
    assert!(!s.gpu_enabled);
    assert!(s.local_config.gpu_enabled);
    assert!(matches!(s.update(AppletMessage::ToggleGpuEnabled(false), false), AppletAction::SaveLocalConfig));
    assert!(!s.local_config.gpu_enabled);
}

#[test]
fn popup_toggles_open_and_closed() {
    let mut s = state();
    assert!(matches!(s.update(AppletMessage::TogglePopup, true), AppletAction::OpenPopup));
    s.popup_opened(9);
    assert!(matches!(s.update(AppletMessage::PopupClosed(3), true), AppletAction::Nothing));
    assert_eq!(s.popup, Some(9));
    assert!(matches!(s.update(AppletMessage::TogglePopup, true), AppletAction::ClosePopup(9)));
    assert!(s.popup.is_none());
}

#[test]
fn daemon_status_with_empty_fields_means_random_and_primary() {
    let mut s = state();
    s.display_mode = "mirror".to_string();
    let status = DaemonStatus {
        idle_enabled: false,
        idle_timeout_mins: 30,
        active_saver: String::new(),
        gpu_enabled: false,
        show_fps_overlay: true,
        display_mode: String::new(),
        running: true,
        render_scale: String::new(),
        presentation_active: false,
        preview_active: false,
        current_saver: String::new(),
        system_idle: false,
        session_locked: false,
        inhibited: false,
    };
    s.refresh_from_daemon(Some(status), Some(vec!["chaos".to_string()]));
    assert!(s.daemon_running);
    assert!(s.local_config.active_saver.is_none());
    assert_eq!(s.display_mode, "primary");
    assert_eq!(s.local_config.idle_timeout_mins, 30);
    assert_eq!(s.screensavers, vec!["chaos".to_string()]);
}

#[test]
fn saver_buttons_list_random_first_and_mark_choice() {
    let mut s = state();
    s.local_config.active_saver = Some("storm".to_string());
    let b = s.saver_buttons();
    let labels: Vec<&str> = b.iter().map(|x| x.label.as_str()).collect();
    assert_eq!(labels, vec!["Random", "beams", "storm", "radar"]);
    let chosen: Vec<bool> = b.iter().map(|x| x.selected).collect();
    assert_eq!(chosen, vec![false, false, true, false]);
    s.local_config.active_saver = None;
    assert!(s.saver_buttons()[0].selected);
}

#[test]
fn timeout_label_reads_in_minutes() {
    let s = state();
    assert_eq!(s.timeout_label(), "5 mins");
}
