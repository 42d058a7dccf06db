use portunusd::addr::{IpAddress, Ipv4Address, Ipv6Address};
use portunusd::plan::{parse_config, ParseError, RelayPlan, RelayProtocol};

#[test]
fn can_parse() {
    let plan = RelayPlan::from_str("forward tcp 0.0.0.0:80 to /var/run/hello_web.portunusd")
        .unwrap();
    assert!(plan.network_address.is_ipv4());
    assert_eq!(plan.network_address.port(), 80);
    assert_eq!(plan.protocol, RelayProtocol::Tcp);
    assert_eq!(plan.network_address.ip(), IpAddress::V4(Ipv4Address::new(0, 0, 0, 0)));
    assert_eq!(plan.application_path, "/var/run/hello_web.portunusd");
}

#[test]
fn supports_ipv6() {
    let plan = RelayPlan::from_str("forward tcp [2001:db8::1]:8080 to /door/path").unwrap();
    assert!(plan.network_address.is_ipv6());
    assert_eq!(plan.network_address.port(), 8080);
    let addr = Ipv6Address::new(0x2001, 0xdb8, 0, 0, 0, 0, 0, 0x1);
    assert_eq!(plan.network_address.ip(), IpAddress::V6(addr));
}

#[test]
#[should_panic]
fn missing_door_path() {
    let _plan = RelayPlan::from_str("forward 0.0.0.0:80 to").unwrap();
}

#[test]
#[should_panic]
fn typo() {
    RelayPlan::from_str("foward tcp 0.0.0.0:80 to /var/run/hello_web.portunusd").unwrap();
}

#[test]
fn parse_udp() {
    let protocol = RelayProtocol::from_str("udp").unwrap();
    assert_eq!(protocol, RelayProtocol::Udp);
}

#[test]
fn parse_tcp() {
    let protocol = RelayProtocol::from_str("tcp").unwrap();
    assert_eq!(protocol, RelayProtocol::Tcp);
}

#[test]
#[should_panic]
fn parse_protocol_error() {
    // SCTP isn't supported, so it should trigger an error
    RelayProtocol::from_str("sctp").unwrap();
}

#[test]
fn bad_address_is_a_network_error() {
    assert_eq!(RelayPlan::from_str("forward tcp nowhere to /a.door"), Err(ParseError::Network));
}

#[test]
fn parses_every_line_of_a_config() {
    let plans = parse_config(
        "forward tcp 0.0.0.0:80 to /var/run/web.door\nforward udp 0.0.0.0:53 to /var/run/dns.door",
    )
    .unwrap();
    assert_eq!(plans.len(), 2);
    assert_eq!(plans[0].protocol, RelayProtocol::Tcp);
    assert_eq!(plans[1].protocol, RelayProtocol::Udp);
    assert_eq!(plans[1].application_path, "/var/run/dns.door");
}

#[test]
fn one_bad_line_fails_the_whole_config() {
    let result = parse_config("forward tcp 0.0.0.0:80 to /var/run/web.door\n\n");
    assert_eq!(result, Err(ParseError::Syntax));
}
