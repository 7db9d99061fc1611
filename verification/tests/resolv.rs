// The resolver-configuration parser picking the nameserver address.

use rig::resolv::parse_resolvconf_nameserver;

fn lines(v: &[&str]) -> Vec<String> {
    v.iter().map(|s| s.to_string()).collect()
}

#[test]
fn picks_first_nameserver_line() {
    let conf = lines(&[
        "# generated by hand",
        "search lan",
        "nameserver 8.8.8.8",
        "nameserver 9.9.9.9",
    ]);
    assert_eq!(parse_resolvconf_nameserver(&conf), "8.8.8.8");
}

#[test]
fn takes_last_token_of_the_line() {
    let conf = lines(&["nameserver\t10.0.0.1  "]);
    assert_eq!(parse_resolvconf_nameserver(&conf), "10.0.0.1");
}

#[test]
fn falls_back_to_loopback() {
    assert_eq!(parse_resolvconf_nameserver(&lines(&[])), "127.0.0.1");
    let conf = lines(&["search lan", "options ndots:2"]);
    assert_eq!(parse_resolvconf_nameserver(&conf), "127.0.0.1");
}

#[test]
fn bare_nameserver_keyword_is_its_own_token() {
    // a line that is only the keyword yields the keyword itself: the last
    // token of the line is taken as it stands
    let conf = lines(&["nameserver"]);
    assert_eq!(parse_resolvconf_nameserver(&conf), "nameserver");
}
