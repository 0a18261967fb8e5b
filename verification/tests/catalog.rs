use idlescreen::catalog::{component_catalog, installed, lookup};

#[test]
fn every_component_resolves() {
    for c in component_catalog() {
        assert_eq!(lookup(c.name).map(|x| x.name), Some(c.name));
    }
}

#[test]
fn aliases_resolve() {
    assert_eq!(lookup("daemon").map(|c| c.name), Some("runtime"));
    assert_eq!(lookup("idle").map(|c| c.name), Some("runtime"));
    assert_eq!(lookup("plugins").map(|c| c.name), Some("savers"));
}

#[test]
fn unknown_is_none() {
    assert!(lookup("preview").is_none());
    assert!(lookup("bogus").is_none());
    assert!(lookup("").is_none());
}

#[test]
fn cli_verbs_are_not_components() {
    for verb in ["status", "config", "list", "doctor", "update", "stop"] {
        assert!(lookup(verb).is_none(), "{verb} must route to idle-cli");
    }
}

#[test]
fn names_and_packages_are_distinct() {
    let comps = component_catalog();
    let mut pkgs: Vec<_> = comps.iter().map(|c| c.package).collect();
    pkgs.sort_unstable();
    pkgs.dedup();
    assert_eq!(pkgs.len(), comps.len());
}

#[test]
fn managed_components_are_installed_by_package_version() {
    let runtime = lookup("runtime").expect("runtime is catalogued");
    assert!(runtime.binary.is_none());
    assert!(installed(&runtime, false, &Some("1.0".to_string())));
    assert!(!installed(&runtime, true, &None));
    let cli = lookup("cli").expect("cli is catalogued");
    assert!(cli.binary.is_some());
    assert!(installed(&cli, true, &None));
    assert!(!installed(&cli, false, &Some("1.0".to_string())));
}
