use idlescreen::cli::{completion_shell, CliCommand, CompletionError, CompletionShell, ConfigKey};
use idlescreen::status::{
    config_list_lines, config_set_message, config_value_text, control_panel_lines, daemon_version_line,
    saver_menu_lines, status_json,
    status_lines, status_reply, status_report, DaemonStatus,
};

fn sample() -> DaemonStatus {
    DaemonStatus {
        running: true,
        idle_enabled: true,
        idle_timeout_mins: 15,
        active_saver: String::new(),
        gpu_enabled: false,
        show_fps_overlay: true,
        display_mode: "mirror".to_string(),
        render_scale: String::new(),
        presentation_active: false,
        preview_active: true,
        current_saver: "matrix".to_string(),
        system_idle: false,
        session_locked: true,
        inhibited: false,
    }
}

fn args(v: &[&str]) -> Vec<String> {
    v.iter().map(|s| s.to_string()).collect()
}

#[test]
fn trance_status_lists_every_field_with_layout() {
    let lines = status_lines(&sample(), true);
    assert_eq!(
        lines,
        vec![
            "running:              true",
            "idle_enabled:         true",
            "idle_timeout_mins:    15",
            "active_saver:         random",
            "gpu_enabled:          false",
            "show_fps_overlay:     true",
            "display_mode:         mirror",
            "render_scale:         default",
            "presentation_active:  false",
            "preview_active:       true",
            "current_saver:        matrix",
            "system_idle:          false",
            "session_locked:       true",
            "inhibited:            false",
        ]
    );
}

#[test]
fn idle_status_omits_layout_line() {
    let lines = status_lines(&sample(), false);
    assert_eq!(lines.len(), 13);
    assert!(!lines.iter().any(|l| l.starts_with("display_mode")));
    assert_eq!(lines[6], "render_scale:         default");
}

#[test]
fn status_json_writes_fields_in_order() {
    let mut st = sample();
    st.active_saver = "rain".to_string();
    st.render_scale = "0.5".to_string();
    assert_eq!(
        status_json(&st),
        "{\"running\":true,\"idle_enabled\":true,\"idle_timeout_mins\":15,\"active_saver\":\"rain\",\"gpu_enabled\":false,\"show_fps_overlay\":true,\"render_scale\":\"0.5\",\"presentation_active\":false,\"preview_active\":true,\"current_saver\":\"matrix\",\"system_idle\":false,\"session_locked\":true,\"inhibited\":false}"
    );
}

#[test]
fn status_report_chooses_json_on_flag() {
    let st = sample();
    let json = status_report(&args(&["--json"]), &st);
    assert_eq!(json.len(), 1);
    assert!(json[0].starts_with("{\"running\":true"));
    let text = status_report(&args(&[]), &st);
    assert_eq!(text.len(), 13);
    let other = status_report(&args(&["--yaml"]), &st);
    assert_eq!(other.len(), 13);
}

#[test]
fn status_queries_answer_one_line() {
    let st = sample();
    assert_eq!(status_reply(&CliCommand::GpuStatus, &st), vec!["gpu rendering: off"]);
    assert_eq!(status_reply(&CliCommand::FpsOverlayStatus, &st), vec!["fps overlay: on"]);
    assert_eq!(status_reply(&CliCommand::DisplayModeStatus, &st), vec!["display mode: mirror"]);
    assert_eq!(status_reply(&CliCommand::RenderScaleStatus, &st), vec!["render scale: default"]);
    assert_eq!(status_reply(&CliCommand::Status, &st).len(), 14);
    assert!(status_reply(&CliCommand::Enable, &st).is_empty());
}

#[test]
fn config_list_shows_six_settings() {
    let mut st = sample();
    st.idle_timeout_mins = 240;
    st.active_saver = "chaos".to_string();
    st.render_scale = "0.75".to_string();
    assert_eq!(
        config_list_lines(&st),
        vec![
            "idle_enabled:      true",
            "idle_timeout_mins: 240",
            "active_saver:      chaos",
            "gpu_enabled:       false",
            "show_fps_overlay:  true",
            "render_scale:      0.75",
        ]
    );
}

#[test]
fn config_get_shows_one_value() {
    let st = sample();
    assert_eq!(config_value_text(&st, ConfigKey::IdleEnabled), "true");
    assert_eq!(config_value_text(&st, ConfigKey::IdleTimeoutMins), "15");
    assert_eq!(config_value_text(&st, ConfigKey::ActiveSaver), "random");
    assert_eq!(config_value_text(&st, ConfigKey::GpuEnabled), "false");
    assert_eq!(config_value_text(&st, ConfigKey::ShowFpsOverlay), "true");
    assert_eq!(config_value_text(&st, ConfigKey::RenderScale), "default");
}

#[test]
fn config_set_confirms_key_and_value() {
    assert_eq!(
        config_set_message("timeout", "30"),
        "Set config key 'timeout' to '30' successfully."
    );
}

#[test]
fn daemon_version_line_reports_reachability() {
    assert_eq!(daemon_version_line(false, Some(true)), "Daemon:  not running");
    assert_eq!(daemon_version_line(true, Some(true)), "Daemon:  reachable (running)");
    assert_eq!(daemon_version_line(true, Some(false)), "Daemon:  reachable (connected)");
    assert_eq!(daemon_version_line(true, None), "Daemon:  reachable");
}

#[test]
fn completion_names_bash_or_zsh() {
    assert_eq!(completion_shell(&args(&["bash"])).unwrap(), CompletionShell::Bash);
    assert_eq!(completion_shell(&args(&["zsh", "extra"])).unwrap(), CompletionShell::Zsh);
    match completion_shell(&args(&[])) {
        Err(e) => {
            assert!(matches!(e, CompletionError::Usage));
            assert_eq!(e.message(), "usage: trance completion bash | zsh");
        }
        Ok(_) => panic!("expected usage error"),
    }
    match completion_shell(&args(&["fish"])) {
        Err(e) => assert_eq!(e.message(), "unsupported shell 'fish'; please specify 'bash' or 'zsh'"),
        Ok(_) => panic!("expected refusal"),
    }
}

#[test]
fn control_panel_shows_current_settings() {
    let mut st = sample();
    st.active_saver = "matrix".to_string();
    assert_eq!(
        control_panel_lines(&st),
        vec![
            "\n==========================================",
            "Trance Interactive Control Panel",
            "==========================================",
            " 1. Toggle Idle Activation (Current: ENABLED)",
            " 2. Set Idle Timeout       (Current: 15 mins)",
            " 3. Select Active Saver    (Current: matrix)",
            " 4. Preview a Screensaver",
            " 5. Toggle FPS Overlay     (Current: ON)",
            " 6. Stop Current Preview / Presentation",
            " 7. Exit",
        ]
    );
    st.idle_enabled = false;
    st.show_fps_overlay = false;
    st.active_saver = String::new();
    let lines = control_panel_lines(&st);
    assert_eq!(lines[3], " 1. Toggle Idle Activation (Current: DISABLED)");
    assert_eq!(lines[5], " 3. Select Active Saver    (Current: random)");
    assert_eq!(lines[7], " 5. Toggle FPS Overlay     (Current: OFF)");
}

#[test]
fn saver_menu_numbers_from_one() {
    let savers = args(&["matrix", "rain"]);
    assert_eq!(
        saver_menu_lines(&savers, true),
        vec!["  0. random (default)", "  1. matrix", "  2. rain"]
    );
    assert_eq!(saver_menu_lines(&savers, false), vec!["  1. matrix", "  2. rain"]);
    assert!(saver_menu_lines(&Vec::new(), false).is_empty());
}
