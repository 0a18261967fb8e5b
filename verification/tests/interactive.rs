use idlescreen::interactive::{
    menu_action, package_hint, parse_one_based_index, saver_choice, timeout_choice, MenuAction,
    SaverChoice, TimeoutChoice,
};

#[test]
fn menu_answers_pick_entries() {
    assert_eq!(menu_action("1\n"), Some(MenuAction::ToggleIdle));
    assert_eq!(menu_action(" 7 "), Some(MenuAction::Quit));
    assert_eq!(menu_action("5"), Some(MenuAction::ToggleFps));
    assert_eq!(menu_action("8"), None);
    assert_eq!(menu_action(""), None);
}

#[test]
fn one_based_index_is_range_checked() {
    assert_eq!(parse_one_based_index(" 2\n", 3), Some(2));
    assert_eq!(parse_one_based_index("0", 3), None);
    assert_eq!(parse_one_based_index("4", 3), None);
    assert_eq!(parse_one_based_index("x", 3), None);
}

#[test]
fn saver_answers() {
    let savers = vec!["beams".to_string(), "storm".to_string()];
    assert!(matches!(saver_choice("0", &savers), SaverChoice::Random));
    match saver_choice("2\n", &savers) {
        SaverChoice::Saver(n) => assert_eq!(n, "storm"),
        other => panic!("unexpected {other:?}"),
    }
    assert!(matches!(saver_choice("3", &savers), SaverChoice::OutOfRange));
    assert!(matches!(saver_choice("two", &savers), SaverChoice::NotNumber));
}

#[test]
fn timeout_answers() {
    assert_eq!(timeout_choice("240"), TimeoutChoice::Minutes(240));
    assert_eq!(timeout_choice("241"), TimeoutChoice::OutOfRange);
    assert_eq!(timeout_choice("0"), TimeoutChoice::OutOfRange);
    assert_eq!(timeout_choice("-1"), TimeoutChoice::Invalid);
}

#[test]
fn package_hints_are_trimmed_and_filtered() {
    assert_eq!(package_hint(true, " trance-1.2-3.x86_64\n", Some("is not installed")), Some("trance-1.2-3.x86_64".to_string()));
    assert_eq!(package_hint(true, "package trance is not installed\n", Some("is not installed")), None);
    assert_eq!(package_hint(false, "trance 1.2", None), None);
    assert_eq!(package_hint(true, "   ", None), None);
}

#[test]
fn choice_messages_follow_the_answer() {
    let savers = vec!["matrix".to_string()];
    assert_eq!(
        saver_choice("0", &savers).message().as_deref(),
        Some("Active screensaver set to: random")
    );
    assert_eq!(
        saver_choice("1", &savers).message().as_deref(),
        Some("Active screensaver set to: matrix")
    );
    assert_eq!(saver_choice("2", &savers).message().as_deref(), Some("Invalid choice."));
    assert_eq!(saver_choice("x", &savers).message(), None);
    assert_eq!(timeout_choice("45").message(), "Timeout updated to 45 minutes.");
    assert_eq!(timeout_choice("500").message(), "Invalid range (must be 1-240).");
    assert_eq!(timeout_choice("soon").message(), "Invalid input.");
}
