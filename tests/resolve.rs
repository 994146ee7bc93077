use voice_probe::resolve::{select_address, IpAddress, ProbeTarget, ResolutionError};

#[test]
fn ipv4_preferred_when_listed_after_ipv6() {
    let c = vec![IpAddress::V6(1), IpAddress::V6(2), IpAddress::V4(0x7f000001), IpAddress::V4(5)];
    assert_eq!(select_address(&c), Ok(IpAddress::V4(0x7f000001)));
}

#[test]
fn ipv4_preferred_when_listed_first() {
    let c = vec![IpAddress::V4(0xcb007105), IpAddress::V6(1)];
    assert_eq!(select_address(&c), Ok(IpAddress::V4(0xcb007105)));
}

#[test]
fn last_ipv6_taken_without_ipv4() {
    let c = vec![IpAddress::V6(10), IpAddress::V6(20), IpAddress::V6(30)];
    assert_eq!(select_address(&c), Ok(IpAddress::V6(30)));
}

#[test]
fn no_candidates_is_no_address() {
    assert_eq!(select_address(&vec![]), Err(ResolutionError::NoAddress));
}

#[test]
fn probe_target_keeps_its_fields() {
    let t = ProbeTarget::new("example.org".to_string(), IpAddress::V4(0xcb007105), 24454);
    assert_eq!(t.host, "example.org");
    assert_eq!(t.address, IpAddress::V4(0xcb007105));
    assert_eq!(t.port, 24454);
}
