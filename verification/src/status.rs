//! What the command lines print about the daemon's state: the status report
//! (as text or JSON), the answers to status queries, and `trance config`
//! listings.
//!
//! Asking the daemon and printing happen outside; the text is built here.

use vstd::prelude::*;

use crate::cli::{display_saver_spec, CliCommand, ConfigKey};
use crate::resolve::string_views;
use crate::text::{decimal, decimal_chars, string_from_chars};

verus! {

/// Everything the daemon reports about itself.
pub struct DaemonStatus {
    pub running: bool,
    pub idle_enabled: bool,
    pub idle_timeout_mins: u32,
    /// Empty when the daemon picks a random saver.
    pub active_saver: String,
    pub gpu_enabled: bool,
    pub show_fps_overlay: bool,
    /// Empty when the daemon has not chosen a layout.
    pub display_mode: String,
    /// Empty when the daemon uses its default render scale.
    pub render_scale: String,
    pub presentation_active: bool,
    pub preview_active: bool,
    pub current_saver: String,
    pub system_idle: bool,
    pub session_locked: bool,
    pub inhibited: bool,
}

/// `bool` as `Display` writes it.
pub open spec fn bool_text(b: bool) -> Seq<char> {
    if b {
        "true"@
    } else {
        "false"@
    }
}

/// A switch as the status queries show it.
pub open spec fn on_off_text(b: bool) -> Seq<char> {
    if b {
        "on"@
    } else {
        "off"@
    }
}

/// How a render scale is shown: "default" when the daemon reports none.
pub open spec fn scale_text(s: Seq<char>) -> Seq<char> {
    if s.len() == 0 {
        "default"@
    } else {
        s
    }
}

/// The status report as text, one line per field. `with_layout` adds the
/// display-mode line that `trance status` prints and `idle status` does not.
pub open spec fn status_lines_spec(st: DaemonStatus, with_layout: bool) -> Seq<Seq<char>> {
    let head = seq![
        "running:              "@ + bool_text(st.running),
        "idle_enabled:         "@ + bool_text(st.idle_enabled),
        "idle_timeout_mins:    "@ + decimal(st.idle_timeout_mins as nat),
        "active_saver:         "@ + display_saver_spec(st.active_saver@),
        "gpu_enabled:          "@ + bool_text(st.gpu_enabled),
        "show_fps_overlay:     "@ + bool_text(st.show_fps_overlay),
    ];
    let layout = if with_layout {
        seq!["display_mode:         "@ + st.display_mode@]
    } else {
        Seq::<Seq<char>>::empty()
    };
    let tail = seq![
        "render_scale:         "@ + scale_text(st.render_scale@),
        "presentation_active:  "@ + bool_text(st.presentation_active),
        "preview_active:       "@ + bool_text(st.preview_active),
        "current_saver:        "@ + st.current_saver@,
        "system_idle:          "@ + bool_text(st.system_idle),
        "session_locked:       "@ + bool_text(st.session_locked),
        "inhibited:            "@ + bool_text(st.inhibited),
    ];
    head + layout + tail
}

/// The status report as one JSON object. Saver names and the render scale
/// are written between quotes as they are, without escaping.
pub open spec fn status_json_spec(st: DaemonStatus) -> Seq<char> {
    "{\"running\":"@ + bool_text(st.running) + ",\"idle_enabled\":"@ + bool_text(st.idle_enabled)
        + ",\"idle_timeout_mins\":"@ + decimal(st.idle_timeout_mins as nat) + ",\"active_saver\":\""@
        + st.active_saver@ + "\",\"gpu_enabled\":"@ + bool_text(st.gpu_enabled)
        + ",\"show_fps_overlay\":"@ + bool_text(st.show_fps_overlay) + ",\"render_scale\":\""@
        + st.render_scale@ + "\",\"presentation_active\":"@ + bool_text(st.presentation_active)
        + ",\"preview_active\":"@ + bool_text(st.preview_active) + ",\"current_saver\":\""@
        + st.current_saver@ + "\",\"system_idle\":"@ + bool_text(st.system_idle)
        + ",\"session_locked\":"@ + bool_text(st.session_locked) + ",\"inhibited\":"@
        + bool_text(st.inhibited) + "}"@
}

fn bool_string(b: bool) -> (s: String)
    ensures
        s@ == bool_text(b),
{
    if b {
        "true".to_string()
    } else {
        "false".to_string()
    }
}

fn on_off_string(b: bool) -> (s: String)
    ensures
        s@ == on_off_text(b),
{
    if b {
        "on".to_string()
    } else {
        "off".to_string()
    }
}

fn scale_string(s: &str) -> (r: String)
    ensures
        r@ == scale_text(s@),
{
    if s.is_empty() {
        "default".to_string()
    } else {
        s.to_string()
    }
}

fn saver_string(s: &str) -> (r: String)
    ensures
        r@ == display_saver_spec(s@),
{
    if s.is_empty() {
        "random".to_string()
    } else {
        s.to_string()
    }
}

fn decimal_string(n: u32) -> (s: String)
    ensures
        s@ == decimal(n as nat),
{
    let v = decimal_chars(n as u64);
    string_from_chars(&v)
}

/// `label` followed by `value`.
fn labelled(label: &str, value: &str) -> (s: String)
    ensures
        s@ == label@ + value@,
{
    let mut s = String::new();
    s.append(label);
    s.append(value);
    s
}

/// The status report as text (`trance status` with `with_layout`, `idle status`
/// without).
pub fn status_lines(status: &DaemonStatus, with_layout: bool) -> (lines: Vec<String>)
    ensures
        string_views(lines@) == status_lines_spec(*status, with_layout),
{
    let mut lines: Vec<String> = Vec::new();
    lines.push(labelled("running:              ", bool_string(status.running).as_str()));
    lines.push(labelled("idle_enabled:         ", bool_string(status.idle_enabled).as_str()));
    lines.push(
        labelled("idle_timeout_mins:    ", decimal_string(status.idle_timeout_mins).as_str()),
    );
    lines.push(
        labelled("active_saver:         ", saver_string(status.active_saver.as_str()).as_str()),
    );
    lines.push(labelled("gpu_enabled:          ", bool_string(status.gpu_enabled).as_str()));
    lines.push(labelled("show_fps_overlay:     ", bool_string(status.show_fps_overlay).as_str()));
    if with_layout {
        lines.push(labelled("display_mode:         ", status.display_mode.as_str()));
    }
    lines.push(
        labelled("render_scale:         ", scale_string(status.render_scale.as_str()).as_str()),
    );
    lines.push(
        labelled("presentation_active:  ", bool_string(status.presentation_active).as_str()),
    );
    lines.push(labelled("preview_active:       ", bool_string(status.preview_active).as_str()));
    lines.push(labelled("current_saver:        ", status.current_saver.as_str()));
    lines.push(labelled("system_idle:          ", bool_string(status.system_idle).as_str()));
    lines.push(labelled("session_locked:       ", bool_string(status.session_locked).as_str()));
    lines.push(labelled("inhibited:            ", bool_string(status.inhibited).as_str()));
    assert(string_views(lines@) =~= status_lines_spec(*status, with_layout));
    lines
}

/// The status report as one line of JSON (`idle status --json`).
pub fn status_json(status: &DaemonStatus) -> (s: String)
    ensures
        s@ == status_json_spec(*status),
{
    let mut s = String::new();
    s.append("{\"running\":");
    s.append(bool_string(status.running).as_str());
    s.append(",\"idle_enabled\":");
    s.append(bool_string(status.idle_enabled).as_str());
    s.append(",\"idle_timeout_mins\":");
    s.append(decimal_string(status.idle_timeout_mins).as_str());
    s.append(",\"active_saver\":\"");
    s.append(status.active_saver.as_str());
    s.append("\",\"gpu_enabled\":");
    s.append(bool_string(status.gpu_enabled).as_str());
    s.append(",\"show_fps_overlay\":");
    s.append(bool_string(status.show_fps_overlay).as_str());
    s.append(",\"render_scale\":\"");
    s.append(status.render_scale.as_str());
    s.append("\",\"presentation_active\":");
    s.append(bool_string(status.presentation_active).as_str());
    s.append(",\"preview_active\":");
    s.append(bool_string(status.preview_active).as_str());
    s.append(",\"current_saver\":\"");
    s.append(status.current_saver.as_str());
    s.append("\",\"system_idle\":");
    s.append(bool_string(status.system_idle).as_str());
    s.append(",\"session_locked\":");
    s.append(bool_string(status.session_locked).as_str());
    s.append(",\"inhibited\":");
    s.append(bool_string(status.inhibited).as_str());
    s.append("}");
    s
}

/// What a status query of `trance` prints once the daemon has answered:
/// the full report for `status`, one line for the queries of a single
/// setting, nothing for the other commands (they do not ask for the status).
pub open spec fn status_reply_spec(command: CliCommand, st: DaemonStatus) -> Seq<Seq<char>> {
    match command {
        CliCommand::Status => status_lines_spec(st, true),
        CliCommand::GpuStatus => seq!["gpu rendering: "@ + on_off_text(st.gpu_enabled)],
        CliCommand::FpsOverlayStatus => seq!["fps overlay: "@ + on_off_text(st.show_fps_overlay)],
        CliCommand::DisplayModeStatus => seq!["display mode: "@ + st.display_mode@],
        CliCommand::RenderScaleStatus => seq!["render scale: "@ + scale_text(st.render_scale@)],
        _ => Seq::empty(),
    }
}

/// The lines `trance` prints for `command` given the daemon's status.
pub fn status_reply(command: &CliCommand, status: &DaemonStatus) -> (lines: Vec<String>)
    ensures
        string_views(lines@) == status_reply_spec(*command, *status),
{
    let mut lines: Vec<String> = Vec::new();
    match command {
        CliCommand::Status => {
            return status_lines(status, true);
        },
        CliCommand::GpuStatus => {
            lines.push(labelled("gpu rendering: ", on_off_string(status.gpu_enabled).as_str()));
        },
        CliCommand::FpsOverlayStatus => {
            lines.push(labelled("fps overlay: ", on_off_string(status.show_fps_overlay).as_str()));
        },
        CliCommand::DisplayModeStatus => {
            lines.push(labelled("display mode: ", status.display_mode.as_str()));
        },
        CliCommand::RenderScaleStatus => {
            lines.push(
                labelled("render scale: ", scale_string(status.render_scale.as_str()).as_str()),
            );
        },
        _ => {},
    }
    assert(string_views(lines@) =~= status_reply_spec(*command, *status));
    lines
}

/// What `idle status` prints: the report as JSON when the first argument is
/// `--json`, as text otherwise.
pub open spec fn status_report_spec(args: Seq<Seq<char>>, st: DaemonStatus) -> Seq<Seq<char>> {
    if args.len() > 0 && args[0] == "--json"@ {
        seq![status_json_spec(st)]
    } else {
        status_lines_spec(st, false)
    }
}

/// The lines `idle status` prints with these arguments.
pub fn status_report(args: &Vec<String>, status: &DaemonStatus) -> (lines: Vec<String>)
    ensures
        string_views(lines@) == status_report_spec(string_views(args@), *status),
{
    let ghost a = string_views(args@);
    if args.len() > 0 {
        assert(a[0] == args@[0]@);
        if same_text(args[0].as_str(), "--json") {
            let mut lines: Vec<String> = Vec::new();
            lines.push(status_json(status));
            assert(string_views(lines@) =~= seq![status_json_spec(*status)]);
            return lines;
        }
    }
    status_lines(status, false)
}

/// Whether `a` and `b` hold the same characters.
fn same_text(a: &str, b: &str) -> (r: bool)
    ensures
        r == (a@ == b@),
{
    let x = crate::text::str_chars(a);
    let y = crate::text::str_chars(b);
    crate::text::chars_equal(&x, y.as_slice())
}

/// `trance config list`: the six settings, one per line.
pub open spec fn config_list_spec(st: DaemonStatus) -> Seq<Seq<char>> {
    seq![
        "idle_enabled:      "@ + bool_text(st.idle_enabled),
        "idle_timeout_mins: "@ + decimal(st.idle_timeout_mins as nat),
        "active_saver:      "@ + display_saver_spec(st.active_saver@),
        "gpu_enabled:       "@ + bool_text(st.gpu_enabled),
        "show_fps_overlay:  "@ + bool_text(st.show_fps_overlay),
        "render_scale:      "@ + scale_text(st.render_scale@),
    ]
}

/// The lines `trance config list` prints.
pub fn config_list_lines(status: &DaemonStatus) -> (lines: Vec<String>)
    ensures
        string_views(lines@) == config_list_spec(*status),
{
    let mut lines: Vec<String> = Vec::new();
    lines.push(labelled("idle_enabled:      ", bool_string(status.idle_enabled).as_str()));
    lines.push(labelled("idle_timeout_mins: ", decimal_string(status.idle_timeout_mins).as_str()));
    lines.push(labelled("active_saver:      ", saver_string(status.active_saver.as_str()).as_str()));
    lines.push(labelled("gpu_enabled:       ", bool_string(status.gpu_enabled).as_str()));
    lines.push(labelled("show_fps_overlay:  ", bool_string(status.show_fps_overlay).as_str()));
    lines.push(labelled("render_scale:      ", scale_string(status.render_scale.as_str()).as_str()));
    assert(string_views(lines@) =~= config_list_spec(*status));
    lines
}

/// `trance config get <key>`: the value of one setting.
pub open spec fn config_value_spec(st: DaemonStatus, key: ConfigKey) -> Seq<char> {
    match key {
        ConfigKey::IdleEnabled => bool_text(st.idle_enabled),
        ConfigKey::IdleTimeoutMins => decimal(st.idle_timeout_mins as nat),
        ConfigKey::ActiveSaver => display_saver_spec(st.active_saver@),
        ConfigKey::GpuEnabled => bool_text(st.gpu_enabled),
        ConfigKey::ShowFpsOverlay => bool_text(st.show_fps_overlay),
        ConfigKey::RenderScale => scale_text(st.render_scale@),
    }
}

/// The line `trance config get` prints for `key`.
pub fn config_value_text(status: &DaemonStatus, key: ConfigKey) -> (s: String)
    ensures
        s@ == config_value_spec(*status, key),
{
    match key {
        ConfigKey::IdleEnabled => bool_string(status.idle_enabled),
        ConfigKey::IdleTimeoutMins => decimal_string(status.idle_timeout_mins),
        ConfigKey::ActiveSaver => saver_string(status.active_saver.as_str()),
        ConfigKey::GpuEnabled => bool_string(status.gpu_enabled),
        ConfigKey::ShowFpsOverlay => bool_string(status.show_fps_overlay),
        ConfigKey::RenderScale => scale_string(status.render_scale.as_str()),
    }
}

/// The confirmation `trance config set` prints once the daemon took the value.
pub fn config_set_message(key: &str, val: &str) -> (s: String)
    ensures
        s@ == "Set config key '"@ + key@ + "' to '"@ + val@ + "' successfully."@,
{
    let mut s = String::new();
    s.append("Set config key '");
    s.append(key);
    s.append("' to '");
    s.append(val);
    s.append("' successfully.");
    s
}

/// The daemon line of `idle version --verbose`: whether the daemon's bus
/// name is present, and, when it answered a status query, whether it runs.
pub open spec fn daemon_version_line_spec(available: bool, running: Option<bool>) -> Seq<char> {
    if !available {
        "Daemon:  not running"@
    } else {
        match running {
            Some(true) => "Daemon:  reachable (running)"@,
            Some(false) => "Daemon:  reachable (connected)"@,
            None => "Daemon:  reachable"@,
        }
    }
}

/// The daemon line of the verbose version report.
pub fn daemon_version_line(available: bool, running: Option<bool>) -> (s: String)
    ensures
        s@ == daemon_version_line_spec(available, running),
{
    if !available {
        return "Daemon:  not running".to_string();
    }
    match running {
        Some(true) => "Daemon:  reachable (running)".to_string(),
        Some(false) => "Daemon:  reachable (connected)".to_string(),
        None => "Daemon:  reachable".to_string(),
    }
}

/// The interactive control panel's menu, the current settings shown beside
/// their entries.
pub open spec fn control_panel_spec(st: DaemonStatus) -> Seq<Seq<char>> {
    seq![
        "\n=========================================="@,
        "Trance Interactive Control Panel"@,
        "=========================================="@,
        " 1. Toggle Idle Activation (Current: "@ + (if st.idle_enabled {
            "ENABLED"@
        } else {
            "DISABLED"@
        }) + ")"@,
        " 2. Set Idle Timeout       (Current: "@ + decimal(st.idle_timeout_mins as nat) + " mins)"@,
        " 3. Select Active Saver    (Current: "@ + display_saver_spec(st.active_saver@) + ")"@,
        " 4. Preview a Screensaver"@,
        " 5. Toggle FPS Overlay     (Current: "@ + (if st.show_fps_overlay {
            "ON"@
        } else {
            "OFF"@
        }) + ")"@,
        " 6. Stop Current Preview / Presentation"@,
        " 7. Exit"@,
    ]
}

/// `prefix`, `value`, `suffix`.
fn framed(prefix: &str, value: &str, suffix: &str) -> (s: String)
    ensures
        s@ == prefix@ + value@ + suffix@,
{
    let mut s = String::new();
    s.append(prefix);
    s.append(value);
    s.append(suffix);
    s
}

/// The lines of the interactive control panel's menu.
pub fn control_panel_lines(status: &DaemonStatus) -> (lines: Vec<String>)
    ensures
        string_views(lines@) == control_panel_spec(*status),
{
    let mut lines: Vec<String> = Vec::new();
    lines.push("\n==========================================".to_string());
    lines.push("Trance Interactive Control Panel".to_string());
    lines.push("==========================================".to_string());
    let idle = if status.idle_enabled {
        "ENABLED"
    } else {
        "DISABLED"
    };
    lines.push(framed(" 1. Toggle Idle Activation (Current: ", idle, ")"));
    lines.push(
        framed(
            " 2. Set Idle Timeout       (Current: ",
            decimal_string(status.idle_timeout_mins).as_str(),
            " mins)",
        ),
    );
    lines.push(
        framed(
            " 3. Select Active Saver    (Current: ",
            saver_string(status.active_saver.as_str()).as_str(),
            ")",
        ),
    );
    lines.push(" 4. Preview a Screensaver".to_string());
    let fps = if status.show_fps_overlay {
        "ON"
    } else {
        "OFF"
    };
    lines.push(framed(" 5. Toggle FPS Overlay     (Current: ", fps, ")"));
    lines.push(" 6. Stop Current Preview / Presentation".to_string());
    lines.push(" 7. Exit".to_string());
    assert(string_views(lines@) =~= control_panel_spec(*status));
    lines
}

/// The numbered list of savers the control panel offers: `  <n>. <name>`
/// from 1, after `  0. random (default)` when random is offered.
pub open spec fn saver_menu_spec(savers: Seq<Seq<char>>, offer_random: bool) -> Seq<Seq<char>> {
    (if offer_random {
        seq!["  0. random (default)"@]
    } else {
        Seq::empty()
    }) + Seq::new(savers.len(), |i: int| "  "@ + decimal((i + 1) as nat) + ". "@ + savers[i])
}

/// The lines listing `savers` for a choice.
pub fn saver_menu_lines(savers: &Vec<String>, offer_random: bool) -> (lines: Vec<String>)
    ensures
        string_views(lines@) == saver_menu_spec(string_views(savers@), offer_random),
{
    let ghost names = string_views(savers@);
    let mut lines: Vec<String> = Vec::new();
    if offer_random {
        lines.push("  0. random (default)".to_string());
    }
    let ghost head = string_views(lines@);
    let mut i: usize = 0;
    while i < savers.len()
        invariant
            0 <= i <= savers@.len(),
            names == string_views(savers@),
            head == (if offer_random {
                seq!["  0. random (default)"@]
            } else {
                Seq::<Seq<char>>::empty()
            }),
            string_views(lines@) == head + Seq::new(
                i as nat,
                |j: int| "  "@ + decimal((j + 1) as nat) + ". "@ + names[j],
            ),
        decreases savers@.len() - i,
    {
        let number = decimal_chars((i as u64) + 1);
        let number = string_from_chars(&number);
        let line = framed("  ", number.as_str(), ". ");
        let mut line = line;
        line.append(savers[i].as_str());
        let ghost before = string_views(lines@);
        lines.push(line);
        proof {
            assert(names[i as int] == savers@[i as int]@);
            assert(string_views(lines@) =~= before.push(line@));
            assert(head + Seq::new(
                (i + 1) as nat,
                |j: int| "  "@ + decimal((j + 1) as nat) + ". "@ + names[j],
            ) =~= (head + Seq::new(
                i as nat,
                |j: int| "  "@ + decimal((j + 1) as nat) + ". "@ + names[j],
            )).push(line@));
        }
        i = i + 1;
    }
    assert(string_views(lines@) =~= saver_menu_spec(names, offer_random));
    lines
}

} // verus!
