use idlescreen::theme::Theme;

#[test]
fn themes_parse_ignoring_case_and_round_trip() {
    for t in [Theme::Synthwave, Theme::Cyberpunk, Theme::Neon, Theme::Aurora, Theme::Monokai, Theme::Matrix] {
        assert_eq!(Theme::parse(&t.to_string()), Some(t));
    }
    assert_eq!(Theme::parse("NEON"), Some(Theme::Neon));
    assert_eq!("Matrix".parse::<Theme>(), Ok(Theme::Matrix));
    assert_eq!(Theme::parse("plaid"), None);
    assert_eq!(Theme::default(), Theme::Synthwave);
}

#[test]
fn palettes_have_three_colours() {
    assert_eq!(Theme::Synthwave.palette(), vec![(255, 0, 102), (0, 255, 255), (255, 153, 0)]);
    assert_eq!(Theme::Matrix.palette()[2], (0, 150, 0));
}

#[test]
fn named_matches_exact_lower_case_names() {
    assert_eq!(Theme::named("matrix"), Some(Theme::Matrix));
    assert_eq!(Theme::named("synthwave"), Some(Theme::Synthwave));
    assert_eq!(Theme::named("Matrix"), None);
    assert_eq!(Theme::named(""), None);
}
