use idlescreen::router::{parse_router_args, prepend, resolve_packages, route, RouteAction, RouterCommand};

fn args(v: &[&str]) -> Vec<String> {
    v.iter().map(|s| s.to_string()).collect()
}

#[test]
fn router_verbs_are_recognised() {
    assert!(matches!(parse_router_args(&args(&[])), RouterCommand::Usage));
    assert!(matches!(parse_router_args(&args(&["--help"])), RouterCommand::Usage));
    assert!(matches!(parse_router_args(&args(&["-V"])), RouterCommand::Version));
    assert!(matches!(parse_router_args(&args(&["components"])), RouterCommand::Components));
    assert!(matches!(parse_router_args(&args(&["versions"])), RouterCommand::Versions));
    match parse_router_args(&args(&["install", "tui", "all"])) {
        RouterCommand::Install(rest) => assert_eq!(rest, args(&["tui", "all"])),
        other => panic!("unexpected {other:?}"),
    }
    match parse_router_args(&args(&["preview", "beams"])) {
        RouterCommand::Route(name, rest) => {
            assert_eq!(name, "preview");
            assert_eq!(rest, args(&["beams"]));
        }
        other => panic!("unexpected {other:?}"),
    }
}

#[test]
fn components_run_their_binary_and_verbs_go_to_idle_cli() {
    match route("cosmic", &args(&["--x"])) {
        RouteAction::Exec { binary, args: a, package } => {
            assert_eq!(binary, "idlescreen-applet");
            assert_eq!(package, "idle-cosmic");
            assert_eq!(a, args(&["--x"]));
        }
        other => panic!("unexpected {other:?}"),
    }
    match route("preview", &args(&["beams"])) {
        RouteAction::Exec { binary, args: a, package } => {
            assert_eq!(binary, "idle-cli");
            assert_eq!(package, "idle-cli");
            assert_eq!(a, args(&["preview", "beams"]));
        }
        other => panic!("unexpected {other:?}"),
    }
    match route("daemon", &args(&[])) {
        RouteAction::Managed(c) => assert_eq!(c.name, "runtime"),
        other => panic!("unexpected {other:?}"),
    }
}

#[test]
fn packages_are_sorted_deduplicated_and_unknowns_reported() {
    let r = resolve_packages(&args(&["tui", "cli", "tui", "bogus", "plugins"]));
    assert_eq!(r.packages, args(&["idle-cli", "idle-savers", "idle-tui"]));
    assert_eq!(r.unknown, args(&["bogus"]));
    let all = resolve_packages(&args(&["all"]));
    assert_eq!(all.packages.len(), 6);
    let mut sorted = all.packages.clone();
    sorted.sort();
    assert_eq!(sorted, all.packages);
}

#[test]
fn prepend_puts_the_head_first() {
    assert_eq!(prepend("a", &args(&["b", "c"])), args(&["a", "b", "c"]));
}

#[test]
fn packages_are_the_named_ones_sorted_once() {
    let r = resolve_packages(&args(&["daemon", "idle", "tui"]));
    assert_eq!(r.packages, args(&["idle-daemon", "idle-tui"]));
    assert!(r.unknown.is_empty());
    let none = resolve_packages(&args(&["bogus"]));
    assert!(none.packages.is_empty());
    let both = resolve_packages(&args(&["studio", "all", "cli"]));
    assert_eq!(
        both.packages,
        args(&["idle-cli", "idle-cosmic", "idle-daemon", "idle-savers", "idle-studio", "idle-tui"])
    );
}
