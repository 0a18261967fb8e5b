//! The settings panel applet as a state machine: what each message does to
//! the applet's settings, and which outside action it asks for.
//!
//! Talking to the daemon over D-Bus, saving the on-disk config, spawning
//! processes and drawing widgets happen outside; the decisions are here.

use vstd::prelude::*;

use crate::status::DaemonStatus;
use crate::text::{chars_equal, decimal, decimal_chars, push_all, str_chars, string_from_chars};

verus! {

/// The applet's on-disk settings, used while the daemon is not running.
pub struct LocalConfig {
    pub idle_enabled: bool,
    pub idle_timeout_mins: u32,
    pub active_saver: Option<String>,
    pub gpu_enabled: bool,
    pub show_fps_overlay: bool,
    pub display_mode: String,
}

/// Applet state besides its toolkit handles.
pub struct AppletState {
    pub local_config: LocalConfig,
    pub screensavers: Vec<String>,
    pub daemon_running: bool,
    pub gpu_enabled: bool,
    pub show_fps_overlay: bool,
    pub display_mode: String,
    /// Identifier of the open popup window, if any.
    pub popup: Option<u64>,
}

/// Messages of the applet's widgets and subscriptions.
pub enum AppletMessage {
    TogglePopup,
    PopupClosed(u64),
    SubscriptionChannel,
    /// The toolkit configuration changed (the toolkit keeps it).
    UpdateConfig,
    ToggleIdleEnabled(bool),
    ActiveSaverSelected(String),
    ToggleDaemon(bool),
    ToggleGpuEnabled(bool),
    ToggleFpsOverlay(bool),
    DecreaseTimeout,
    IncreaseTimeout,
    OpenPowerSettings,
    DisplayModeSelected(String),
}

/// What the applet asks the outside world to do after a message.
pub enum AppletAction {
    Nothing,
    /// Start the daemon (`systemctl --user start`, else spawn it).
    StartDaemon,
    /// Stop the daemon (`systemctl --user stop`, else signal its pid).
    StopDaemon,
    OpenPowerSettings,
    /// Write the local config to disk.
    SaveLocalConfig,
    SendIdleEnabled(bool),
    SendGpuEnabled(bool),
    SendShowFpsOverlay(bool),
    SendDisplayMode(String),
    /// Tell the daemon the active saver (`None`: random).
    SendActiveSaver(Option<String>),
    SendTimeout(u32),
    ClosePopup(u64),
    /// Refresh from the daemon, then open a popup (see [`AppletState::popup_opened`]).
    OpenPopup,
}

/// The label that stands for "no fixed saver".
pub open spec fn random_label() -> Seq<char> {
    seq!['R', 'a', 'n', 'd', 'o', 'm']
}

/// The layout used when none is reported.
pub open spec fn primary_mode() -> Seq<char> {
    seq!['p', 'r', 'i', 'm', 'a', 'r', 'y']
}

/// Shortest and longest idle timeout the applet offers, in minutes.
pub const MIN_TIMEOUT_MINS: u32 = 1;

pub const MAX_TIMEOUT_MINS: u32 = 120;

fn primary_string() -> (s: String)
    ensures
        s@ == primary_mode(),
{
    let v = vec!['p', 'r', 'i', 'm', 'a', 'r', 'y'];
    assert(v@ == primary_mode());
    string_from_chars(&v)
}

fn copy_string(s: &String) -> (r: String)
    ensures
        r == *s,
{
    s.clone()
}

fn copy_option(o: &Option<String>) -> (r: Option<String>)
    ensures
        r == *o,
{
    match o {
        Some(s) => Some(s.clone()),
        None => None,
    }
}

impl AppletState {
    /// The state at start-up, before the first refresh: settings from disk,
    /// savers found on disk, GPU upscaling on, no FPS overlay, primary layout.
    pub fn new(local_config: LocalConfig, screensavers: Vec<String>) -> (s: Self)
        ensures
            s.local_config == local_config,
            s.screensavers == screensavers,
            !s.daemon_running,
            s.gpu_enabled,
            !s.show_fps_overlay,
            s.display_mode@ == primary_mode(),
            s.popup is None,
    {
        AppletState {
            local_config,
            screensavers,
            daemon_running: false,
            gpu_enabled: true,
            show_fps_overlay: false,
            display_mode: primary_string(),
            popup: None,
        }
    }

    /// Take in what was observed of the daemon. When it runs, `status` (if it
    /// answered) replaces the settings, an empty saver meaning random and an
    /// empty layout meaning primary, and `savers` (if listed) the saver list.
    pub fn refresh_from_daemon(&mut self, status: Option<DaemonStatus>, savers: Option<Vec<String>>)
        ensures
            final(self).daemon_running,
            final(self).popup == old(self).popup,
            final(self).local_config.gpu_enabled == old(self).local_config.gpu_enabled,
            final(self).local_config.show_fps_overlay == old(self).local_config.show_fps_overlay,
            final(self).local_config.display_mode == old(self).local_config.display_mode,
            final(self).screensavers == match savers {
                Some(v) => v,
                None => old(self).screensavers,
            },
            match status {
                Some(st) => {
                    &&& final(self).local_config.idle_enabled == st.idle_enabled
                    &&& final(self).local_config.idle_timeout_mins == st.idle_timeout_mins
                    &&& final(self).local_config.active_saver == if st.active_saver@.len() == 0 {
                        None
                    } else {
                        Some(st.active_saver)
                    }
                    &&& final(self).gpu_enabled == st.gpu_enabled
                    &&& final(self).show_fps_overlay == st.show_fps_overlay
                    &&& final(self).display_mode@ == if st.display_mode@.len() == 0 {
                        primary_mode()
                    } else {
                        st.display_mode@
                    }
                },
                None => {
                    &&& final(self).local_config.idle_enabled == old(self).local_config.idle_enabled
                    &&& final(self).local_config.idle_timeout_mins == old(self).local_config.idle_timeout_mins
                    &&& final(self).local_config.active_saver == old(self).local_config.active_saver
                    &&& final(self).gpu_enabled == old(self).gpu_enabled
                    &&& final(self).show_fps_overlay == old(self).show_fps_overlay
                    &&& final(self).display_mode == old(self).display_mode
                },
            },
    {
        self.daemon_running = true;
        match status {
            Some(st) => {
                self.local_config.idle_enabled = st.idle_enabled;
                self.local_config.idle_timeout_mins = st.idle_timeout_mins;
                self.local_config.active_saver = if st.active_saver.as_str().is_empty() {
                    None
                } else {
                    Some(st.active_saver)
                };
                self.gpu_enabled = st.gpu_enabled;
                self.show_fps_overlay = st.show_fps_overlay;
                self.display_mode = if st.display_mode.as_str().is_empty() {
                    primary_string()
                } else {
                    st.display_mode
                };
            },
            None => {},
        }
        match savers {
            Some(v) => {
                self.screensavers = v;
            },
            None => {},
        }
    }

    /// Take in the on-disk settings and savers, the daemon being down: the
    /// GPU and FPS toggles follow the local config.
    pub fn refresh_from_disk(&mut self, local_config: LocalConfig, screensavers: Vec<String>)
        ensures
            !final(self).daemon_running,
            final(self).gpu_enabled == local_config.gpu_enabled,
            final(self).show_fps_overlay == local_config.show_fps_overlay,
            final(self).local_config == local_config,
            final(self).screensavers == screensavers,
            final(self).display_mode == old(self).display_mode,
            final(self).popup == old(self).popup,
    {
        self.daemon_running = false;
        self.gpu_enabled = local_config.gpu_enabled;
        self.show_fps_overlay = local_config.show_fps_overlay;
        self.local_config = local_config;
        self.screensavers = screensavers;
    }

    /// Record the popup opened after [`AppletAction::OpenPopup`].
    pub fn popup_opened(&mut self, id: u64)
        ensures
            final(self).popup == Some(id),
            final(self).local_config == old(self).local_config,
            final(self).screensavers == old(self).screensavers,
            final(self).daemon_running == old(self).daemon_running,
            final(self).gpu_enabled == old(self).gpu_enabled,
            final(self).show_fps_overlay == old(self).show_fps_overlay,
            final(self).display_mode == old(self).display_mode,
    {
        self.popup = Some(id);
    }

    /// Handle `message`; `daemon_up` is whether the daemon answers right now
    /// (settings go to it then, else to the local config on disk).
    pub fn update(&mut self, message: AppletMessage, daemon_up: bool) -> (action: AppletAction)
        ensures
            MIN_TIMEOUT_MINS <= old(self).local_config.idle_timeout_mins <= MAX_TIMEOUT_MINS
                ==> MIN_TIMEOUT_MINS <= final(self).local_config.idle_timeout_mins <= MAX_TIMEOUT_MINS,
            match message {
                AppletMessage::SubscriptionChannel | AppletMessage::UpdateConfig => *final(self) == *old(
                    self,
                ) && action is Nothing,
                AppletMessage::ToggleDaemon(on) => *final(self) == (AppletState {
                    daemon_running: on,
                    ..*old(self)
                }) && (if on {
                    action is StartDaemon
                } else {
                    action is StopDaemon
                }),
                AppletMessage::OpenPowerSettings => *final(self) == *old(self) && action is OpenPowerSettings,
                AppletMessage::ToggleIdleEnabled(on) => *final(self) == (AppletState {
                    local_config: LocalConfig { idle_enabled: on, ..old(self).local_config },
                    ..*old(self)
                }) && (if daemon_up {
                    action == AppletAction::SendIdleEnabled(on)
                } else {
                    action is SaveLocalConfig
                }),
                AppletMessage::ToggleGpuEnabled(on) => if daemon_up {
                    *final(self) == (AppletState { gpu_enabled: on, ..*old(self) }) && action
                        == AppletAction::SendGpuEnabled(on)
                } else {
                    *final(self) == (AppletState {
                        gpu_enabled: on,
                        local_config: LocalConfig { gpu_enabled: on, ..old(self).local_config },
                        ..*old(self)
                    }) && action is SaveLocalConfig
                },
                AppletMessage::ToggleFpsOverlay(on) => if daemon_up {
                    *final(self) == (AppletState { show_fps_overlay: on, ..*old(self) }) && action
                        == AppletAction::SendShowFpsOverlay(on)
                } else {
                    *final(self) == (AppletState {
                        show_fps_overlay: on,
                        local_config: LocalConfig { show_fps_overlay: on, ..old(self).local_config },
                        ..*old(self)
                    }) && action is SaveLocalConfig
                },
                AppletMessage::DisplayModeSelected(mode) => *final(self) == (AppletState {
                    display_mode: mode,
                    local_config: LocalConfig { display_mode: mode, ..old(self).local_config },
                    ..*old(self)
                }) && (if daemon_up {
                    action == AppletAction::SendDisplayMode(mode)
                } else {
                    action is SaveLocalConfig
                }),
                AppletMessage::ActiveSaverSelected(saver) => {
                    let chosen = if saver@ == random_label() {
                        None
                    } else {
                        Some(saver)
                    };
                    *final(self) == (AppletState {
                        local_config: LocalConfig { active_saver: chosen, ..old(self).local_config },
                        ..*old(self)
                    }) && (if daemon_up {
                        action == AppletAction::SendActiveSaver(chosen)
                    } else {
                        action is SaveLocalConfig
                    })
                },
                AppletMessage::DecreaseTimeout => if old(self).local_config.idle_timeout_mins
                    > MIN_TIMEOUT_MINS {
                    let t = (old(self).local_config.idle_timeout_mins - 1) as u32;
                    *final(self) == (AppletState {
                        local_config: LocalConfig { idle_timeout_mins: t, ..old(self).local_config },
                        ..*old(self)
                    }) && (if daemon_up {
                        action == AppletAction::SendTimeout(t)
                    } else {
                        action is SaveLocalConfig
                    })
                } else {
                    *final(self) == *old(self) && action is Nothing
                },
                AppletMessage::IncreaseTimeout => if old(self).local_config.idle_timeout_mins
                    < MAX_TIMEOUT_MINS {
                    let t = (old(self).local_config.idle_timeout_mins + 1) as u32;
                    *final(self) == (AppletState {
                        local_config: LocalConfig { idle_timeout_mins: t, ..old(self).local_config },
                        ..*old(self)
                    }) && (if daemon_up {
                        action == AppletAction::SendTimeout(t)
                    } else {
                        action is SaveLocalConfig
                    })
                } else {
                    *final(self) == *old(self) && action is Nothing
                },
                AppletMessage::TogglePopup => match old(self).popup {
                    Some(p) => *final(self) == (AppletState { popup: None, ..*old(self) }) && action
                        == AppletAction::ClosePopup(p),
                    None => *final(self) == *old(self) && action is OpenPopup,
                },
                AppletMessage::PopupClosed(id) => if old(self).popup == Some(id) {
                    *final(self) == (AppletState { popup: None, ..*old(self) }) && action is Nothing
                } else {
                    *final(self) == *old(self) && action is Nothing
                },
            },
    {
        match message {
            AppletMessage::SubscriptionChannel => AppletAction::Nothing,
            AppletMessage::UpdateConfig => AppletAction::Nothing,
            AppletMessage::ToggleDaemon(on) => {
                self.daemon_running = on;
                if on {
                    AppletAction::StartDaemon
                } else {
                    AppletAction::StopDaemon
                }
            },
            AppletMessage::OpenPowerSettings => AppletAction::OpenPowerSettings,
            AppletMessage::ToggleIdleEnabled(on) => {
                self.local_config.idle_enabled = on;
                if daemon_up {
                    AppletAction::SendIdleEnabled(on)
                } else {
                    AppletAction::SaveLocalConfig
                }
            },
            AppletMessage::ToggleGpuEnabled(on) => {
                self.gpu_enabled = on;
                if daemon_up {
                    AppletAction::SendGpuEnabled(on)
                } else {
                    self.local_config.gpu_enabled = on;
                    AppletAction::SaveLocalConfig
                }
            },
            AppletMessage::ToggleFpsOverlay(on) => {
                self.show_fps_overlay = on;
                if daemon_up {
                    AppletAction::SendShowFpsOverlay(on)
                } else {
                    self.local_config.show_fps_overlay = on;
                    AppletAction::SaveLocalConfig
                }
            },
            AppletMessage::DisplayModeSelected(mode) => {
                self.display_mode = copy_string(&mode);
                self.local_config.display_mode = copy_string(&mode);
                if daemon_up {
                    AppletAction::SendDisplayMode(mode)
                } else {
                    AppletAction::SaveLocalConfig
                }
            },
            AppletMessage::ActiveSaverSelected(saver) => {
                let chars = str_chars(saver.as_str());
                let random = ['R', 'a', 'n', 'd', 'o', 'm'];
                assert(random@ == random_label());
                if chars_equal(&chars, random.as_slice()) {
                    self.local_config.active_saver = None;
                } else {
                    self.local_config.active_saver = Some(saver);
                }
                if daemon_up {
                    AppletAction::SendActiveSaver(copy_option(&self.local_config.active_saver))
                } else {
                    AppletAction::SaveLocalConfig
                }
            },
            AppletMessage::DecreaseTimeout => {
                if self.local_config.idle_timeout_mins > MIN_TIMEOUT_MINS {
                    self.local_config.idle_timeout_mins = self.local_config.idle_timeout_mins - 1;
                    if daemon_up {
                        AppletAction::SendTimeout(self.local_config.idle_timeout_mins)
                    } else {
                        AppletAction::SaveLocalConfig
                    }
                } else {
                    AppletAction::Nothing
                }
            },
            AppletMessage::IncreaseTimeout => {
                if self.local_config.idle_timeout_mins < MAX_TIMEOUT_MINS {
                    self.local_config.idle_timeout_mins = self.local_config.idle_timeout_mins + 1;
                    if daemon_up {
                        AppletAction::SendTimeout(self.local_config.idle_timeout_mins)
                    } else {
                        AppletAction::SaveLocalConfig
                    }
                } else {
                    AppletAction::Nothing
                }
            },
            AppletMessage::TogglePopup => match self.popup {
                Some(p) => {
                    self.popup = None;
                    AppletAction::ClosePopup(p)
                },
                None => AppletAction::OpenPopup,
            },
            AppletMessage::PopupClosed(id) => {
                if self.popup == Some(id) {
                    self.popup = None;
                }
                AppletAction::Nothing
            },
        }
    }
}


/// A saver button of the popup: its label and whether it shows as chosen.
pub struct SaverButton {
    pub label: String,
    pub selected: bool,
}

/// Labels of the saver buttons: "Random", then each known saver.
pub open spec fn saver_options_spec(savers: Seq<String>) -> Seq<Seq<char>> {
    seq![random_label()] + savers.map_values(|s: String| s@)
}

/// The label of the chosen saver ("Random" when none is fixed).
pub open spec fn selected_label_spec(active: Option<String>) -> Seq<char> {
    match active {
        Some(s) => s@,
        None => random_label(),
    }
}

/// `"<minutes> mins"`: the idle timeout as the popup shows it.
pub open spec fn timeout_label_spec(minutes: u32) -> Seq<char> {
    decimal(minutes as nat) + seq![' ', 'm', 'i', 'n', 's']
}

/// Button `b` is labelled `label` and marked exactly when that is `chosen`.
pub open spec fn button_shows(b: SaverButton, label: Seq<char>, chosen: Seq<char>) -> bool {
    b.label@ == label && b.selected == (label == chosen)
}

impl AppletState {
    /// The saver buttons of the popup in order ("Random" first, then each
    /// known saver), the chosen saver marked.
    pub fn saver_buttons(&self) -> (buttons: Vec<SaverButton>)
        requires
            self.screensavers@.len() < usize::MAX,
        ensures
            buttons@.len() == saver_options_spec(self.screensavers@).len(),
            forall|k: int|
                0 <= k < buttons@.len() ==> button_shows(
                    #[trigger] buttons@[k],
                    saver_options_spec(self.screensavers@)[k],
                    selected_label_spec(self.local_config.active_saver),
                ),
    {
        let ghost opts = saver_options_spec(self.screensavers@);
        let ghost chosen = selected_label_spec(self.local_config.active_saver);
        let random = vec!['R', 'a', 'n', 'd', 'o', 'm'];
        assert(random@ == random_label());
        let selected: Vec<char> = match &self.local_config.active_saver {
            Some(s) => str_chars(s.as_str()),
            None => random,
        };
        let n = self.screensavers.len() + 1;
        let mut buttons: Vec<SaverButton> = Vec::new();
        let mut i: usize = 0;
        while i < n
            invariant
                n == opts.len(),
                opts == saver_options_spec(self.screensavers@),
                selected@ == chosen,
                chosen == selected_label_spec(self.local_config.active_saver),
                i <= n,
                buttons@.len() == i,
                forall|k: int|
                    0 <= k < i ==> #[trigger] buttons@[k].label@ == opts[k] && buttons@[k].selected == (
                    opts[k] == chosen),
            decreases n - i,
        {
            let label: String = if i == 0 {
                let r = vec!['R', 'a', 'n', 'd', 'o', 'm'];
                string_from_chars(&r)
            } else {
                self.screensavers[i - 1].clone()
            };
            proof {
                if i > 0 {
                    assert(opts[i as int] == self.screensavers@[i - 1]@);
                }
            }
            let label_chars = str_chars(label.as_str());
            let is_selected = chars_equal(&label_chars, selected.as_slice());
            assert(label_chars@ == opts[i as int]);
            assert(is_selected == (opts[i as int] == chosen));
            let ghost before = buttons@;
            buttons.push(SaverButton { label, selected: is_selected });
            assert(buttons@[i as int].label@ == opts[i as int]);
            assert(buttons@ == before.push(buttons@[i as int]));
            i = i + 1;
        }
        assert forall|k: int| 0 <= k < buttons@.len() implies button_shows(
            #[trigger] buttons@[k],
            opts[k],
            chosen,
        ) by {
            assert(buttons@[k].label@ == opts[k]);
        }
        buttons
    }

    /// The idle timeout as the popup shows it.
    pub fn timeout_label(&self) -> (s: String)
        ensures
            s@ == timeout_label_spec(self.local_config.idle_timeout_mins),
    {
        let mut v = decimal_chars(self.local_config.idle_timeout_mins as u64);
        let unit = [' ', 'm', 'i', 'n', 's'];
        push_all(&mut v, unit.as_slice());
        assert(unit@ == seq![' ', 'm', 'i', 'n', 's']);
        string_from_chars(&v)
    }
}

} // verus!
