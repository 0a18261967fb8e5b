use idlescreen::sysinfo::{kernel_release, os_pretty_name};

#[test]
fn pretty_name_is_unquoted() {
    let text = "NAME=Fedora\nPRETTY_NAME=\"Fedora Linux 41\"\nID=fedora\n";
    assert_eq!(os_pretty_name(text), Some("Fedora Linux 41".to_string()));
}

#[test]
fn empty_pretty_names_are_skipped() {
    let text = "PRETTY_NAME=\"\"\nPRETTY_NAME=Pop!_OS\r\n";
    assert_eq!(os_pretty_name(text), Some("Pop!_OS".to_string()));
    assert_eq!(os_pretty_name("ID=arch\n"), None);
    assert_eq!(os_pretty_name(""), None);
}

#[test]
fn value_stops_at_a_second_equals_sign() {
    assert_eq!(os_pretty_name("PRETTY_NAME=a=b"), Some("a".to_string()));
}

#[test]
fn kernel_release_is_trimmed_or_unknown() {
    assert_eq!(kernel_release(Some("6.8.0-45-generic\n")), "6.8.0-45-generic");
    assert_eq!(kernel_release(None), "unknown");
}
