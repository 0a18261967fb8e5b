use idlescreen::cli::{
    config_key, display_render_scale, display_saver, parse_cli_args, handle_config, CliCommand,
    CliError, ConfigError, ConfigKey, ConfigRequest, ConfigValue,
};

fn args(v: &[&str]) -> Vec<String> {
    v.iter().map(|s| s.to_string()).collect()
}

#[test]
fn help_and_empty_print_usage() {
    assert!(matches!(parse_cli_args(&args(&[])), Ok(CliCommand::Usage)));
    assert!(matches!(parse_cli_args(&args(&["-h"])), Ok(CliCommand::Usage)));
    assert!(matches!(parse_cli_args(&args(&["--help"])), Ok(CliCommand::Usage)));
    assert!(matches!(parse_cli_args(&args(&["help", "x"])), Ok(CliCommand::Usage)));
}

#[test]
fn timeout_needs_exactly_one_number() {
    assert!(matches!(parse_cli_args(&args(&["timeout", "15"])), Ok(CliCommand::Timeout(15))));
    assert!(matches!(parse_cli_args(&args(&["timeout", "x"])), Err(CliError::TimeoutNotNumber)));
    assert!(matches!(parse_cli_args(&args(&["timeout", "1"])), Ok(CliCommand::Timeout(1))));
    assert!(matches!(parse_cli_args(&args(&["timeout", "240"])), Ok(CliCommand::Timeout(240))));
    assert!(matches!(parse_cli_args(&args(&["timeout", "0"])), Err(CliError::TimeoutOutOfRange)));
    assert!(matches!(parse_cli_args(&args(&["timeout", "241"])), Err(CliError::TimeoutOutOfRange)));
    assert!(matches!(parse_cli_args(&args(&["timeout", "1000"])), Err(CliError::TimeoutOutOfRange)));
    assert!(matches!(parse_cli_args(&args(&["timeout"])), Err(CliError::TimeoutUsage)));
    assert!(matches!(parse_cli_args(&args(&["timeout", "1", "2"])), Err(CliError::TimeoutUsage)));
}

#[test]
fn saver_set_random_is_empty() {
    match parse_cli_args(&args(&["saver", "set", "random"])) {
        Ok(CliCommand::SetSaver(s)) => assert_eq!(s, ""),
        other => panic!("unexpected {other:?}"),
    }
    match parse_cli_args(&args(&["saver", "set", "beams"])) {
        Ok(CliCommand::SetSaver(s)) => assert_eq!(s, "beams"),
        other => panic!("unexpected {other:?}"),
    }
    assert!(matches!(parse_cli_args(&args(&["saver", "list"])), Ok(CliCommand::ListSavers)));
    assert!(matches!(parse_cli_args(&args(&["saver"])), Err(CliError::SaverUsage)));
}

#[test]
fn switches_accept_on_off_status() {
    assert!(matches!(parse_cli_args(&args(&["gpu"])), Ok(CliCommand::GpuStatus)));
    assert!(matches!(parse_cli_args(&args(&["gpu", "on"])), Ok(CliCommand::Gpu(true))));
    assert!(matches!(parse_cli_args(&args(&["fps-overlay", "off"])), Ok(CliCommand::FpsOverlay(false))));
    match parse_cli_args(&args(&["fps-overlay", "maybe"])) {
        Err(e) => assert_eq!(e.message(), "unknown fps-overlay subcommand: maybe (use on, off, status)"),
        Ok(c) => panic!("unexpected {c:?}"),
    }
    assert!(matches!(parse_cli_args(&args(&["display-mode", "mirror"])), Ok(CliCommand::DisplayMode(_))));
    assert!(matches!(parse_cli_args(&args(&["display-mode", "tile"])), Err(CliError::UnknownDisplayMode(_))));
    assert!(matches!(parse_cli_args(&args(&["render-scale", "default"])), Ok(CliCommand::RenderScaleDefault)));
    assert!(matches!(parse_cli_args(&args(&["render-scale", "0.5"])), Ok(CliCommand::RenderScale(_))));
}

#[test]
fn unknown_commands_are_named() {
    match parse_cli_args(&args(&["frobnicate"])) {
        Err(e) => assert_eq!(e.message(), "unknown command: frobnicate"),
        Ok(c) => panic!("unexpected {c:?}"),
    }
    assert!(matches!(parse_cli_args(&args(&["preview"])), Err(CliError::PreviewUsage)));
    assert!(matches!(parse_cli_args(&args(&["stop"])), Ok(CliCommand::Stop)));
}

#[test]
fn empty_values_display_as_defaults() {
    assert_eq!(display_saver(""), "random");
    assert_eq!(display_saver("storm"), "storm");
    assert_eq!(display_render_scale(""), "default");
    assert_eq!(display_render_scale("0.5"), "0.5");
}

#[test]
fn config_keys_have_long_and_short_names() {
    assert_eq!(config_key("idle_timeout_mins"), Some(ConfigKey::IdleTimeoutMins));
    assert_eq!(config_key("timeout"), Some(ConfigKey::IdleTimeoutMins));
    assert_eq!(config_key("fps"), Some(ConfigKey::ShowFpsOverlay));
    assert_eq!(config_key("volume"), None);
}

#[test]
fn config_set_checks_values() {
    assert!(matches!(
        handle_config(&args(&["set", "timeout", "30"])),
        Ok(ConfigRequest::Update { key: ConfigKey::IdleTimeoutMins, value: ConfigValue::Minutes(30) })
    ));
    assert!(matches!(handle_config(&args(&["set", "timeout", "0"])), Err(ConfigError::TimeoutOutOfRange)));
    assert!(matches!(handle_config(&args(&["set", "timeout", "241"])), Err(ConfigError::TimeoutOutOfRange)));
    assert!(matches!(handle_config(&args(&["set", "timeout", "ten"])), Err(ConfigError::NotInteger)));
    assert!(matches!(handle_config(&args(&["set", "gpu", "yes"])), Err(ConfigError::NotBool)));
    match handle_config(&args(&["set", "saver", "none"])) {
        Ok(ConfigRequest::Update { value: ConfigValue::Saver(s), .. }) => assert_eq!(s, ""),
        other => panic!("unexpected {other:?}"),
    }
    match handle_config(&args(&["set", "volume", "3"])) {
        Err(e) => assert_eq!(e.message(), "unknown configuration key: volume"),
        Ok(r) => panic!("unexpected {r:?}"),
    }
    assert!(matches!(handle_config(&args(&["set", "gpu"])), Err(ConfigError::MissingValue)));
    assert!(matches!(handle_config(&args(&["get"])), Err(ConfigError::MissingKey)));
    assert!(matches!(handle_config(&args(&["get", "volume"])), Ok(ConfigRequest::Get { key: None, .. })));
    assert!(matches!(handle_config(&args(&["list"])), Ok(ConfigRequest::List)));
    assert!(matches!(handle_config(&args(&["frob"])), Ok(ConfigRequest::Usage)));
}

#[test]
fn every_refusal_has_its_message() {
    assert_eq!(CliError::TimeoutNotNumber.message(), "timeout requires a number of minutes (1–240)");
    assert_eq!(CliError::TimeoutUsage.message(), "usage: trance timeout <minutes>");
    assert_eq!(CliError::TimeoutOutOfRange.message(), "timeout must be between 1 and 240 minutes");
    assert_eq!(
        CliError::SaverUsage.message(),
        "usage: trance saver set <name|random> | trance saver list"
    );
    assert_eq!(CliError::PreviewUsage.message(), "usage: trance preview <saver>");
    assert_eq!(
        CliError::UnknownDisplayMode("tile".to_string()).message(),
        "unknown display-mode: tile (use primary, mirror, expand, status)"
    );
    assert_eq!(
        CliError::UnknownGpu("max".to_string()).message(),
        "unknown gpu subcommand: max (use on, off, status)"
    );
    assert_eq!(ConfigError::MissingKey.message(), "missing key");
    assert_eq!(ConfigError::MissingValue.message(), "missing value");
    assert_eq!(ConfigError::NotBool.message(), "value must be true or false");
    assert_eq!(ConfigError::NotInteger.message(), "value must be an integer (1–240)");
    assert_eq!(
        ConfigError::TimeoutOutOfRange.message(),
        "timeout must be between 1 and 240 minutes"
    );
}
