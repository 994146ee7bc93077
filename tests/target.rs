use voice_probe::target::{endpoint_from_parts, parse_endpoint, InputError, UrlParts, DEFAULT_PORT};

#[test]
fn host_without_port_takes_default_port() {
    let e = parse_endpoint("example.org").unwrap();
    assert_eq!(e.host, "example.org");
    assert_eq!(e.port, 24454);
    assert_eq!(DEFAULT_PORT, 24454);
}

#[test]
fn explicit_port_is_kept() {
    let e = parse_endpoint("203.0.113.5:25565").unwrap();
    assert_eq!(e.host, "203.0.113.5");
    assert_eq!(e.port, 25565);
}

#[test]
fn ipv6_host_keeps_brackets() {
    let e = parse_endpoint("[::1]:7").unwrap();
    assert_eq!(e.host, "[::1]");
    assert_eq!(e.port, 7);
}

#[test]
fn malformed_host_is_url_parse_error() {
    assert_eq!(parse_endpoint("bad host_!!").err(), Some(InputError::UrlParse));
    assert_eq!(parse_endpoint("example.org:99999").err(), Some(InputError::UrlParse));
    assert_eq!(parse_endpoint("[bad_host").err(), Some(InputError::UrlParse));
}

#[test]
fn parts_without_host_are_no_host() {
    let p = UrlParts { host: None, port: Some(5) };
    assert_eq!(endpoint_from_parts(Some(p)).err(), Some(InputError::NoHost));
    assert_eq!(endpoint_from_parts(None).err(), Some(InputError::UrlParse));
}

#[test]
fn parts_give_host_and_port() {
    let p = UrlParts { host: Some("h".to_string()), port: None };
    let e = endpoint_from_parts(Some(p)).unwrap();
    assert_eq!(e.host, "h");
    assert_eq!(e.port, 24454);
}
