use port_forwarder::target::Target;

#[test]
fn parses_application_and_namespace() {
    let target = Target::parse("echo.default").unwrap();
    assert_eq!(target.application_name(), "echo");
    assert_eq!(target.namespace(), "default");
}

#[test]
fn key_is_the_host() {
    let target = Target::parse("echo.default").unwrap();
    assert_eq!(target.key(), "echo.default");
}

#[test]
fn label_selector_names_the_application() {
    let target = Target::parse("echo.default").unwrap();
    assert_eq!(target.label_selector(), "app=echo");
}

#[test]
fn host_without_dot_is_malformed() {
    assert!(Target::parse("bad-format-host").is_err());
}

#[test]
fn host_with_two_dots_is_malformed() {
    assert!(Target::parse("echo.default.svc").is_err());
    assert!(Target::parse("a..b").is_err());
}

#[test]
fn empty_host_is_malformed() {
    assert!(Target::parse("").is_err());
}

#[test]
fn host_with_an_empty_part_is_malformed() {
    assert!(Target::parse(".default").is_err());
    assert!(Target::parse("echo.").is_err());
    assert!(Target::parse(".").is_err());
}

#[test]
fn shortest_host_is_well_formed() {
    let target = Target::parse("a.b").unwrap();
    assert_eq!(target.application_name(), "a");
    assert_eq!(target.namespace(), "b");
}

#[test]
fn parts_may_hold_any_other_character() {
    let target = Target::parse("my-app_1.team-\u{e9}").unwrap();
    assert_eq!(target.application_name(), "my-app_1");
    assert_eq!(target.namespace(), "team-\u{e9}");
    assert_eq!(target.key(), "my-app_1.team-\u{e9}");
}
