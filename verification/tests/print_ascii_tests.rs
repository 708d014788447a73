use port_forwarder::print_ascii::{print_rocket_std_output, ASCII_ROCKET, RUNNING};

#[test]
fn banner_says_that_the_proxy_runs() {
    let (running, _) = print_rocket_std_output();
    assert_eq!(running, "port-forwarder is running");
    assert_eq!(running, RUNNING);
}

#[test]
fn banner_shows_the_rocket() {
    let (_, rocket) = print_rocket_std_output();
    assert_eq!(rocket, ASCII_ROCKET);
    assert_eq!(rocket.lines().count(), 34);
    assert!(rocket.starts_with('\n'));
    assert!(rocket.ends_with("(a:f   \"     `\"       `\n"));
    assert!(rocket.contains(".-\"-"));
}
