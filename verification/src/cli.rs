//! The `trance` command line: what each invocation asks of the daemon, and
//! which invocations are refused with which message.
//!
//! Connecting to the daemon and printing happen outside.

use vstd::prelude::*;

use crate::text::{chars_equal, parse_unsigned, parse_usize, str_chars};

verus! {

/// A request of the `trance` command line.
#[derive(Debug)]
pub enum CliCommand {
    /// Print usage (`-h`, `--help`, `help` or no arguments).
    Usage,
    Status,
    Enable,
    Disable,
    /// Set the idle timeout in minutes (1 to 240).
    Timeout(u32),
    /// Set the active saver (empty: random).
    SetSaver(String),
    ListSavers,
    Preview(String),
    Stop,
    GpuStatus,
    Gpu(bool),
    FpsOverlayStatus,
    FpsOverlay(bool),
    DisplayModeStatus,
    /// Set the multi-monitor layout (`primary`, `mirror` or `expand`).
    DisplayMode(String),
    RenderScaleStatus,
    RenderScaleDefault,
    /// Set the render scale from this text (a number between 0.25 and 1.0).
    RenderScale(String),
}

/// Why an invocation was refused.
#[derive(Debug)]
pub enum CliError {
    UnknownCommand(String),
    TimeoutNotNumber,
    /// A timeout outside 1 to 240 minutes.
    TimeoutOutOfRange,
    TimeoutUsage,
    SaverUsage,
    PreviewUsage,
    UnknownFpsOverlay(String),
    UnknownDisplayMode(String),
    UnknownGpu(String),
}

/// The message printed when an invocation is refused.
pub open spec fn cli_error_text(e: CliError) -> Seq<char> {
    match e {
        CliError::UnknownCommand(c) => "unknown command: "@ + c@,
        CliError::TimeoutNotNumber => "timeout requires a number of minutes (1–240)"@,
        CliError::TimeoutOutOfRange => "timeout must be between 1 and 240 minutes"@,
        CliError::TimeoutUsage => "usage: trance timeout <minutes>"@,
        CliError::SaverUsage => "usage: trance saver set <name|random> | trance saver list"@,
        CliError::PreviewUsage => "usage: trance preview <saver>"@,
        CliError::UnknownFpsOverlay(v) => "unknown fps-overlay subcommand: "@ + v@
            + " (use on, off, status)"@,
        CliError::UnknownDisplayMode(v) => "unknown display-mode: "@ + v@
            + " (use primary, mirror, expand, status)"@,
        CliError::UnknownGpu(v) => "unknown gpu subcommand: "@ + v@ + " (use on, off, status)"@,
    }
}

impl CliError {
    /// The message printed for this refusal.
    pub fn message(&self) -> (m: String)
        ensures
            m@ == cli_error_text(*self),
    {
        match self {
            CliError::UnknownCommand(c) => {
                let mut m = String::new();
                m.append("unknown command: ");
                m.append(c.as_str());
                m
            },
            CliError::TimeoutNotNumber => "timeout requires a number of minutes (1–240)".to_string(),
            CliError::TimeoutOutOfRange => "timeout must be between 1 and 240 minutes".to_string(),
            CliError::TimeoutUsage => "usage: trance timeout <minutes>".to_string(),
            CliError::SaverUsage => "usage: trance saver set <name|random> | trance saver list".to_string(),
            CliError::PreviewUsage => "usage: trance preview <saver>".to_string(),
            CliError::UnknownFpsOverlay(v) => {
                let mut m = String::new();
                m.append("unknown fps-overlay subcommand: ");
                m.append(v.as_str());
                m.append(" (use on, off, status)");
                m
            },
            CliError::UnknownDisplayMode(v) => {
                let mut m = String::new();
                m.append("unknown display-mode: ");
                m.append(v.as_str());
                m.append(" (use primary, mirror, expand, status)");
                m
            },
            CliError::UnknownGpu(v) => {
                let mut m = String::new();
                m.append("unknown gpu subcommand: ");
                m.append(v.as_str());
                m.append(" (use on, off, status)");
                m
            },
        }
    }
}

/// What an invocation means, as characters.
pub enum CliMeaning {
    Usage,
    Status,
    Enable,
    Disable,
    Timeout(u32),
    SetSaver(Seq<char>),
    ListSavers,
    Preview(Seq<char>),
    Stop,
    GpuStatus,
    Gpu(bool),
    FpsOverlayStatus,
    FpsOverlay(bool),
    DisplayModeStatus,
    DisplayMode(Seq<char>),
    RenderScaleStatus,
    RenderScaleDefault,
    RenderScale(Seq<char>),
    UnknownCommand(Seq<char>),
    TimeoutNotNumber,
    TimeoutOutOfRange,
    TimeoutUsage,
    SaverUsage,
    PreviewUsage,
    UnknownFpsOverlay(Seq<char>),
    UnknownDisplayMode(Seq<char>),
    UnknownGpu(Seq<char>),
}

/// The meaning of a result of [`parse_cli_args`].
pub open spec fn cli_meaning(r: Result<CliCommand, CliError>) -> CliMeaning {
    match r {
        Ok(c) => match c {
            CliCommand::Usage => CliMeaning::Usage,
            CliCommand::Status => CliMeaning::Status,
            CliCommand::Enable => CliMeaning::Enable,
            CliCommand::Disable => CliMeaning::Disable,
            CliCommand::Timeout(m) => CliMeaning::Timeout(m),
            CliCommand::SetSaver(s) => CliMeaning::SetSaver(s@),
            CliCommand::ListSavers => CliMeaning::ListSavers,
            CliCommand::Preview(s) => CliMeaning::Preview(s@),
            CliCommand::Stop => CliMeaning::Stop,
            CliCommand::GpuStatus => CliMeaning::GpuStatus,
            CliCommand::Gpu(b) => CliMeaning::Gpu(b),
            CliCommand::FpsOverlayStatus => CliMeaning::FpsOverlayStatus,
            CliCommand::FpsOverlay(b) => CliMeaning::FpsOverlay(b),
            CliCommand::DisplayModeStatus => CliMeaning::DisplayModeStatus,
            CliCommand::DisplayMode(s) => CliMeaning::DisplayMode(s@),
            CliCommand::RenderScaleStatus => CliMeaning::RenderScaleStatus,
            CliCommand::RenderScaleDefault => CliMeaning::RenderScaleDefault,
            CliCommand::RenderScale(s) => CliMeaning::RenderScale(s@),
        },
        Err(e) => match e {
            CliError::UnknownCommand(s) => CliMeaning::UnknownCommand(s@),
            CliError::TimeoutNotNumber => CliMeaning::TimeoutNotNumber,
            CliError::TimeoutOutOfRange => CliMeaning::TimeoutOutOfRange,
            CliError::TimeoutUsage => CliMeaning::TimeoutUsage,
            CliError::SaverUsage => CliMeaning::SaverUsage,
            CliError::PreviewUsage => CliMeaning::PreviewUsage,
            CliError::UnknownFpsOverlay(s) => CliMeaning::UnknownFpsOverlay(s@),
            CliError::UnknownDisplayMode(s) => CliMeaning::UnknownDisplayMode(s@),
            CliError::UnknownGpu(s) => CliMeaning::UnknownGpu(s@),
        },
    }
}

/// The subcommand of an `on | off | status` switch (`None`: no subcommand).
pub open spec fn switch_meaning(
    sub: Option<Seq<char>>,
    status: CliMeaning,
    on: CliMeaning,
    off: CliMeaning,
    unknown: spec_fn(Seq<char>) -> CliMeaning,
) -> CliMeaning {
    match sub {
        None => status,
        Some(v) => if v == "status"@ {
            status
        } else if v == "on"@ {
            on
        } else if v == "off"@ {
            off
        } else {
            unknown(v)
        },
    }
}

/// The first of `args`, if any.
pub open spec fn first_of(args: Seq<Seq<char>>) -> Option<Seq<char>> {
    if args.len() > 0 {
        Some(args[0])
    } else {
        None
    }
}

/// What the arguments after the program name ask for.
pub open spec fn cli_spec(args: Seq<Seq<char>>) -> CliMeaning {
    if args.len() == 0 || args[0] == "-h"@ || args[0] == "--help"@ || args[0] == "help"@ {
        CliMeaning::Usage
    } else {
        let cmd = args[0];
        let rest = args.drop_first();
        if cmd == "status"@ {
            CliMeaning::Status
        } else if cmd == "enable"@ {
            CliMeaning::Enable
        } else if cmd == "disable"@ {
            CliMeaning::Disable
        } else if cmd == "timeout"@ {
            if rest.len() == 1 {
                match parse_unsigned(rest[0], u32::MAX as nat) {
                    Some(n) => if 1 <= n <= 240 {
                        CliMeaning::Timeout(n as u32)
                    } else {
                        CliMeaning::TimeoutOutOfRange
                    },
                    None => CliMeaning::TimeoutNotNumber,
                }
            } else {
                CliMeaning::TimeoutUsage
            }
        } else if cmd == "saver"@ {
            if rest.len() == 2 && rest[0] == "set"@ {
                CliMeaning::SetSaver(
                    if rest[1] == "random"@ {
                        Seq::empty()
                    } else {
                        rest[1]
                    },
                )
            } else if rest.len() == 1 && rest[0] == "list"@ {
                CliMeaning::ListSavers
            } else {
                CliMeaning::SaverUsage
            }
        } else if cmd == "list"@ {
            CliMeaning::ListSavers
        } else if cmd == "preview"@ {
            if rest.len() > 0 {
                CliMeaning::Preview(rest[0])
            } else {
                CliMeaning::PreviewUsage
            }
        } else if cmd == "stop"@ {
            CliMeaning::Stop
        } else if cmd == "gpu"@ {
            switch_meaning(
                first_of(rest),
                CliMeaning::GpuStatus,
                CliMeaning::Gpu(true),
                CliMeaning::Gpu(false),
                |v: Seq<char>| CliMeaning::UnknownGpu(v),
            )
        } else if cmd == "fps-overlay"@ {
            switch_meaning(
                first_of(rest),
                CliMeaning::FpsOverlayStatus,
                CliMeaning::FpsOverlay(true),
                CliMeaning::FpsOverlay(false),
                |v: Seq<char>| CliMeaning::UnknownFpsOverlay(v),
            )
        } else if cmd == "display-mode"@ {
            match first_of(rest) {
                None => CliMeaning::DisplayModeStatus,
                Some(v) => if v == "status"@ {
                    CliMeaning::DisplayModeStatus
                } else if v == "primary"@ || v == "mirror"@ || v == "expand"@ {
                    CliMeaning::DisplayMode(v)
                } else {
                    CliMeaning::UnknownDisplayMode(v)
                },
            }
        } else if cmd == "render-scale"@ {
            match first_of(rest) {
                None => CliMeaning::RenderScaleStatus,
                Some(v) => if v == "status"@ {
                    CliMeaning::RenderScaleStatus
                } else if v == "default"@ {
                    CliMeaning::RenderScaleDefault
                } else {
                    CliMeaning::RenderScale(v)
                },
            }
        } else {
            CliMeaning::UnknownCommand(cmd)
        }
    }
}

/// The characters of each argument.
pub open spec fn arg_views(args: Seq<String>) -> Seq<Seq<char>> {
    args.map_values(|s: String| s@)
}

/// Whether `s` is exactly the word `w`.
fn is_word(s: &str, w: &str) -> (r: bool)
    ensures
        r == (s@ == w@),
{
    let a = str_chars(s);
    let b = str_chars(w);
    chars_equal(&a, b.as_slice())
}

/// Parse a `u32` as `str::parse::<u32>` does.
pub fn parse_u32(s: &str) -> (r: Option<u32>)
    ensures
        match r {
            Some(v) => parse_unsigned(s@, u32::MAX as nat) == Some(v as nat),
            None => parse_unsigned(s@, u32::MAX as nat) is None,
        },
{
    match parse_usize(s) {
        Some(v) => {
            if v <= 4294967295usize {
                Some(v as u32)
            } else {
                None
            }
        },
        None => None,
    }
}

/// Interpret the `trance` arguments (without the program name).
pub fn parse_cli_args(args: &Vec<String>) -> (r: Result<CliCommand, CliError>)
    ensures
        cli_meaning(r) == cli_spec(arg_views(args@)),
{
    let ghost a = arg_views(args@);
    if args.len() == 0 {
        return Ok(CliCommand::Usage);
    }
    assert(a[0] == args@[0]@);
    let cmd = args[0].as_str();
    if is_word(cmd, "-h") || is_word(cmd, "--help") || is_word(cmd, "help") {
        return Ok(CliCommand::Usage);
    }
    let n = args.len() - 1;
    let ghost rest = a.drop_first();
    assert(forall|k: int| 0 <= k < n ==> #[trigger] rest[k] == args@[k + 1]@);
    if is_word(cmd, "status") {
        Ok(CliCommand::Status)
    } else if is_word(cmd, "enable") {
        Ok(CliCommand::Enable)
    } else if is_word(cmd, "disable") {
        Ok(CliCommand::Disable)
    } else if is_word(cmd, "timeout") {
        if n == 1 {
            match parse_u32(args[1].as_str()) {
                Some(m) => {
                    if 1 <= m && m <= 240 {
                        Ok(CliCommand::Timeout(m))
                    } else {
                        Err(CliError::TimeoutOutOfRange)
                    }
                },
                None => Err(CliError::TimeoutNotNumber),
            }
        } else {
            Err(CliError::TimeoutUsage)
        }
    } else if is_word(cmd, "saver") {
        if n == 2 && is_word(args[1].as_str(), "set") {
            if is_word(args[2].as_str(), "random") {
                Ok(CliCommand::SetSaver(String::new()))
            } else {
                Ok(CliCommand::SetSaver(args[2].clone()))
            }
        } else if n == 1 && is_word(args[1].as_str(), "list") {
            Ok(CliCommand::ListSavers)
        } else {
            Err(CliError::SaverUsage)
        }
    } else if is_word(cmd, "list") {
        Ok(CliCommand::ListSavers)
    } else if is_word(cmd, "preview") {
        if n > 0 {
            Ok(CliCommand::Preview(args[1].clone()))
        } else {
            Err(CliError::PreviewUsage)
        }
    } else if is_word(cmd, "stop") {
        Ok(CliCommand::Stop)
    } else if is_word(cmd, "gpu") {
        if n == 0 {
            Ok(CliCommand::GpuStatus)
        } else {
            let v = args[1].as_str();
            if is_word(v, "status") {
                Ok(CliCommand::GpuStatus)
            } else if is_word(v, "on") {
                Ok(CliCommand::Gpu(true))
            } else if is_word(v, "off") {
                Ok(CliCommand::Gpu(false))
            } else {
                Err(CliError::UnknownGpu(args[1].clone()))
            }
        }
    } else if is_word(cmd, "fps-overlay") {
        if n == 0 {
            Ok(CliCommand::FpsOverlayStatus)
        } else {
            let v = args[1].as_str();
            if is_word(v, "status") {
                Ok(CliCommand::FpsOverlayStatus)
            } else if is_word(v, "on") {
                Ok(CliCommand::FpsOverlay(true))
            } else if is_word(v, "off") {
                Ok(CliCommand::FpsOverlay(false))
            } else {
                Err(CliError::UnknownFpsOverlay(args[1].clone()))
            }
        }
    } else if is_word(cmd, "display-mode") {
        if n == 0 {
            Ok(CliCommand::DisplayModeStatus)
        } else {
            let v = args[1].as_str();
            if is_word(v, "status") {
                Ok(CliCommand::DisplayModeStatus)
            } else if is_word(v, "primary") || is_word(v, "mirror") || is_word(v, "expand") {
                Ok(CliCommand::DisplayMode(args[1].clone()))
            } else {
                Err(CliError::UnknownDisplayMode(args[1].clone()))
            }
        }
    } else if is_word(cmd, "render-scale") {
        if n == 0 {
            Ok(CliCommand::RenderScaleStatus)
        } else {
            let v = args[1].as_str();
            if is_word(v, "status") {
                Ok(CliCommand::RenderScaleStatus)
            } else if is_word(v, "default") {
                Ok(CliCommand::RenderScaleDefault)
            } else {
                Ok(CliCommand::RenderScale(args[1].clone()))
            }
        }
    } else {
        Err(CliError::UnknownCommand(args[0].clone()))
    }
}

/// How the daemon's active saver is shown: "random" when it has none.
pub open spec fn display_saver_spec(name: Seq<char>) -> Seq<char> {
    if name.len() == 0 {
        "random"@
    } else {
        name
    }
}

/// The active saver as shown to users.
pub fn display_saver(name: &str) -> (s: String)
    ensures
        s@ == display_saver_spec(name@),
{
    if name.is_empty() {
        "random".to_string()
    } else {
        name.to_string()
    }
}


/// How the daemon's render scale is shown: "default" when it has none.
pub fn display_render_scale(scale: &str) -> (s: String)
    ensures
        s@ == (if scale@.len() == 0 {
            "default"@
        } else {
            scale@
        }),
{
    if scale.is_empty() {
        "default".to_string()
    } else {
        scale.to_string()
    }
}

/// A setting of `trance config`.
#[derive(Clone, Copy, Debug, PartialEq, Eq, Structural)]
pub enum ConfigKey {
    IdleEnabled,
    IdleTimeoutMins,
    ActiveSaver,
    GpuEnabled,
    ShowFpsOverlay,
    RenderScale,
}

/// The setting a key names (each has a long and a short name).
pub open spec fn config_key_spec(name: Seq<char>) -> Option<ConfigKey> {
    if name == "idle_enabled"@ || name == "enabled"@ {
        Some(ConfigKey::IdleEnabled)
    } else if name == "idle_timeout_mins"@ || name == "timeout"@ {
        Some(ConfigKey::IdleTimeoutMins)
    } else if name == "active_saver"@ || name == "saver"@ {
        Some(ConfigKey::ActiveSaver)
    } else if name == "gpu_enabled"@ || name == "gpu"@ {
        Some(ConfigKey::GpuEnabled)
    } else if name == "show_fps_overlay"@ || name == "fps"@ {
        Some(ConfigKey::ShowFpsOverlay)
    } else if name == "render_scale"@ || name == "scale"@ {
        Some(ConfigKey::RenderScale)
    } else {
        None
    }
}

/// The setting `name` names, if any.
pub fn config_key(name: &str) -> (k: Option<ConfigKey>)
    ensures
        k == config_key_spec(name@),
{
    if is_word(name, "idle_enabled") || is_word(name, "enabled") {
        Some(ConfigKey::IdleEnabled)
    } else if is_word(name, "idle_timeout_mins") || is_word(name, "timeout") {
        Some(ConfigKey::IdleTimeoutMins)
    } else if is_word(name, "active_saver") || is_word(name, "saver") {
        Some(ConfigKey::ActiveSaver)
    } else if is_word(name, "gpu_enabled") || is_word(name, "gpu") {
        Some(ConfigKey::GpuEnabled)
    } else if is_word(name, "show_fps_overlay") || is_word(name, "fps") {
        Some(ConfigKey::ShowFpsOverlay)
    } else if is_word(name, "render_scale") || is_word(name, "scale") {
        Some(ConfigKey::RenderScale)
    } else {
        None
    }
}

/// A checked value for a setting.
#[derive(Debug)]
pub enum ConfigValue {
    Bool(bool),
    Minutes(u32),
    /// The saver to activate (empty: random).
    Saver(String),
    /// Render-scale text: `default`, or a number the caller checks.
    Scale(String),
}

/// A `trance config` request.
#[derive(Debug)]
pub enum ConfigRequest {
    List,
    /// Read the setting named `name` (`key` is `None` when no setting has that name).
    Get { key: Option<ConfigKey>, name: String },
    /// Write a checked value to a setting.
    Update { key: ConfigKey, value: ConfigValue },
    Usage,
}

/// Why a `trance config` request was refused.
#[derive(Debug)]
pub enum ConfigError {
    MissingKey,
    MissingValue,
    UnknownKey(String),
    NotBool,
    NotInteger,
    TimeoutOutOfRange,
}

/// The message printed when a `trance config` request is refused.
pub open spec fn config_error_text(e: ConfigError) -> Seq<char> {
    match e {
        ConfigError::MissingKey => "missing key"@,
        ConfigError::MissingValue => "missing value"@,
        ConfigError::UnknownKey(k) => "unknown configuration key: "@ + k@,
        ConfigError::NotBool => "value must be true or false"@,
        ConfigError::NotInteger => "value must be an integer (1–240)"@,
        ConfigError::TimeoutOutOfRange => "timeout must be between 1 and 240 minutes"@,
    }
}

impl ConfigError {
    /// The message printed for this refusal.
    pub fn message(&self) -> (m: String)
        ensures
            m@ == config_error_text(*self),
    {
        match self {
            ConfigError::MissingKey => "missing key".to_string(),
            ConfigError::MissingValue => "missing value".to_string(),
            ConfigError::UnknownKey(k) => {
                let mut m = String::new();
                m.append("unknown configuration key: ");
                m.append(k.as_str());
                m
            },
            ConfigError::NotBool => "value must be true or false".to_string(),
            ConfigError::NotInteger => "value must be an integer (1–240)".to_string(),
            ConfigError::TimeoutOutOfRange => "timeout must be between 1 and 240 minutes".to_string(),
        }
    }
}

/// `str::parse::<bool>`: exactly `true` or `false`.
pub open spec fn parse_bool_spec(s: Seq<char>) -> Option<bool> {
    if s == "true"@ {
        Some(true)
    } else if s == "false"@ {
        Some(false)
    } else {
        None
    }
}

/// Parse a `bool` as `str::parse::<bool>` does.
pub fn parse_bool(s: &str) -> (r: Option<bool>)
    ensures
        r == parse_bool_spec(s@),
{
    if is_word(s, "true") {
        Some(true)
    } else if is_word(s, "false") {
        Some(false)
    } else {
        None
    }
}

/// What a `trance config set` value means for `key`, or why it is refused.
pub open spec fn set_value_spec(key: ConfigKey, val: Seq<char>) -> Result<ConfigValueMeaning, ConfigError> {
    match key {
        ConfigKey::IdleEnabled | ConfigKey::GpuEnabled | ConfigKey::ShowFpsOverlay => match parse_bool_spec(
            val,
        ) {
            Some(b) => Ok(ConfigValueMeaning::Bool(b)),
            None => Err(ConfigError::NotBool),
        },
        ConfigKey::IdleTimeoutMins => match parse_unsigned(val, u32::MAX as nat) {
            Some(n) => if 1 <= n <= 240 {
                Ok(ConfigValueMeaning::Minutes(n as u32))
            } else {
                Err(ConfigError::TimeoutOutOfRange)
            },
            None => Err(ConfigError::NotInteger),
        },
        ConfigKey::ActiveSaver => Ok(
            ConfigValueMeaning::Saver(
                if val == "random"@ || val == "none"@ {
                    Seq::empty()
                } else {
                    val
                },
            ),
        ),
        ConfigKey::RenderScale => Ok(ConfigValueMeaning::Scale(val)),
    }
}

/// A checked setting value, as characters.
pub enum ConfigValueMeaning {
    Bool(bool),
    Minutes(u32),
    Saver(Seq<char>),
    Scale(Seq<char>),
}

/// The meaning of a [`ConfigValue`].
pub open spec fn value_meaning(v: ConfigValue) -> ConfigValueMeaning {
    match v {
        ConfigValue::Bool(b) => ConfigValueMeaning::Bool(b),
        ConfigValue::Minutes(m) => ConfigValueMeaning::Minutes(m),
        ConfigValue::Saver(s) => ConfigValueMeaning::Saver(s@),
        ConfigValue::Scale(s) => ConfigValueMeaning::Scale(s@),
    }
}

/// Check the value `val` given for `key`.
pub fn check_config_value(key: ConfigKey, val: &str) -> (r: Result<ConfigValue, ConfigError>)
    ensures
        match r {
            Ok(v) => set_value_spec(key, val@) == Ok::<ConfigValueMeaning, ConfigError>(value_meaning(v)),
            Err(e) => set_value_spec(key, val@) == Err::<ConfigValueMeaning, ConfigError>(e),
        },
{
    match key {
        ConfigKey::IdleEnabled | ConfigKey::GpuEnabled | ConfigKey::ShowFpsOverlay => match parse_bool(
            val,
        ) {
            Some(b) => Ok(ConfigValue::Bool(b)),
            None => Err(ConfigError::NotBool),
        },
        ConfigKey::IdleTimeoutMins => match parse_u32(val) {
            Some(n) => {
                if 1 <= n && n <= 240 {
                    Ok(ConfigValue::Minutes(n))
                } else {
                    Err(ConfigError::TimeoutOutOfRange)
                }
            },
            None => Err(ConfigError::NotInteger),
        },
        ConfigKey::ActiveSaver => {
            if is_word(val, "random") || is_word(val, "none") {
                Ok(ConfigValue::Saver(String::new()))
            } else {
                Ok(ConfigValue::Saver(val.to_string()))
            }
        },
        ConfigKey::RenderScale => Ok(ConfigValue::Scale(val.to_string())),
    }
}

/// What `trance config` with these arguments asks for: `list`, `get <key>`,
/// `set <key> <value>`; anything else asks for usage. A refused request is
/// answered with the error's message; the daemon is asked only for the others.
pub fn handle_config(args: &Vec<String>) -> (r: Result<ConfigRequest, ConfigError>)
    ensures
        ({
            let a = arg_views(args@);
            if a.len() > 0 && a[0] == "list"@ {
                r matches Ok(ConfigRequest::List)
            } else if a.len() > 0 && a[0] == "get"@ {
                if a.len() < 2 {
                    r matches Err(ConfigError::MissingKey)
                } else {
                    r matches Ok(ConfigRequest::Get { key, name }) && name@ == a[1] && key
                        == config_key_spec(a[1])
                }
            } else if a.len() > 0 && a[0] == "set"@ {
                if a.len() < 2 {
                    r matches Err(ConfigError::MissingKey)
                } else if a.len() < 3 {
                    r matches Err(ConfigError::MissingValue)
                } else {
                    match config_key_spec(a[1]) {
                        None => r matches Err(ConfigError::UnknownKey(k)) && k@ == a[1],
                        Some(key) => match set_value_spec(key, a[2]) {
                            Ok(m) => r matches Ok(ConfigRequest::Update { key: k, value }) && k == key
                                && value_meaning(value) == m,
                            Err(e) => r == Err::<ConfigRequest, ConfigError>(e),
                        },
                    }
                }
            } else {
                r matches Ok(ConfigRequest::Usage)
            }
        }),
{
    let ghost a = arg_views(args@);
    if args.len() == 0 {
        return Ok(ConfigRequest::Usage);
    }
    assert(a[0] == args@[0]@);
    let sub = args[0].as_str();
    if is_word(sub, "list") {
        Ok(ConfigRequest::List)
    } else if is_word(sub, "get") {
        if args.len() < 2 {
            return Err(ConfigError::MissingKey);
        }
        assert(a[1] == args@[1]@);
        let name = args[1].clone();
        let key = config_key(name.as_str());
        Ok(ConfigRequest::Get { key, name })
    } else if is_word(sub, "set") {
        if args.len() < 2 {
            return Err(ConfigError::MissingKey);
        }
        if args.len() < 3 {
            return Err(ConfigError::MissingValue);
        }
        assert(a[1] == args@[1]@);
        assert(a[2] == args@[2]@);
        let key = match config_key(args[1].as_str()) {
            Some(k) => k,
            None => {
                return Err(ConfigError::UnknownKey(args[1].clone()));
            },
        };
        match check_config_value(key, args[2].as_str()) {
            Ok(value) => Ok(ConfigRequest::Update { key, value }),
            Err(e) => Err(e),
        }
    } else {
        Ok(ConfigRequest::Usage)
    }
}

/// A shell that `trance completion` writes a completion script for.
#[derive(Clone, Copy, Debug, PartialEq, Eq, Structural)]
pub enum CompletionShell {
    Bash,
    Zsh,
}

/// Why `trance completion` was refused.
#[derive(Debug)]
pub enum CompletionError {
    /// No shell was named.
    Usage,
    UnsupportedShell(String),
}

impl CompletionError {
    /// The message printed for this refusal.
    pub fn message(&self) -> (m: String)
        ensures
            m@ == match self {
                CompletionError::Usage => "usage: trance completion bash | zsh"@,
                CompletionError::UnsupportedShell(s) => "unsupported shell '"@ + s@
                    + "'; please specify 'bash' or 'zsh'"@,
            },
    {
        match self {
            CompletionError::Usage => "usage: trance completion bash | zsh".to_string(),
            CompletionError::UnsupportedShell(s) => {
                let mut m = String::new();
                m.append("unsupported shell '");
                m.append(s.as_str());
                m.append("'; please specify 'bash' or 'zsh'");
                m
            },
        }
    }
}

/// The shell whose script `trance completion` with these arguments prints:
/// the first argument names it.
pub fn completion_shell(args: &Vec<String>) -> (r: Result<CompletionShell, CompletionError>)
    ensures
        ({
            let a = arg_views(args@);
            if a.len() == 0 {
                r matches Err(CompletionError::Usage)
            } else if a[0] == "bash"@ {
                r == Ok::<CompletionShell, CompletionError>(CompletionShell::Bash)
            } else if a[0] == "zsh"@ {
                r == Ok::<CompletionShell, CompletionError>(CompletionShell::Zsh)
            } else {
                r matches Err(CompletionError::UnsupportedShell(s)) && s@ == a[0]
            }
        }),
{
    let ghost a = arg_views(args@);
    if args.len() == 0 {
        return Err(CompletionError::Usage);
    }
    assert(a[0] == args@[0]@);
    let shell = args[0].as_str();
    if is_word(shell, "bash") {
        Ok(CompletionShell::Bash)
    } else if is_word(shell, "zsh") {
        Ok(CompletionShell::Zsh)
    } else {
        Err(CompletionError::UnsupportedShell(args[0].clone()))
    }
}

} // verus!
