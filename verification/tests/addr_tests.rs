use portunusd::addr::{IpAddress, Ipv6Address};
use portunusd::config::ForwardingStatement;
use portunusd::plan::RelayPlan;

#[test]
fn octets_reject_leading_zeroes_and_overflow() {
    assert!(RelayPlan::from_str("forward tcp 0.0.0.255:80 to /a").is_ok());
    assert!(RelayPlan::from_str("forward tcp 0.0.0.256:80 to /a").is_err());
    assert!(RelayPlan::from_str("forward tcp 01.2.3.4:80 to /a").is_err());
    assert!(RelayPlan::from_str("forward tcp 1.2.3:80 to /a").is_err());
    assert!(RelayPlan::from_str("forward tcp 1.2.3.4.5:80 to /a").is_err());
}

#[test]
fn ports_allow_leading_zeroes_but_not_overflow() {
    let plan = RelayPlan::from_str("forward tcp 1.2.3.4:0080 to /a").unwrap();
    assert_eq!(plan.network_address.port(), 80);
    assert!(RelayPlan::from_str("forward tcp 1.2.3.4:65535 to /a").is_ok());
    assert!(RelayPlan::from_str("forward tcp 1.2.3.4:65536 to /a").is_err());
    assert!(RelayPlan::from_str("forward tcp 1.2.3.4: to /a").is_err());
}

#[test]
fn full_ipv6_addresses_parse() {
    let plan = RelayPlan::from_str("forward tcp [1:2:3:4:5:6:7:8]:80 to /a").unwrap();
    assert!(plan.network_address.is_ipv6());
}

#[test]
fn elided_ipv6_addresses_fill_with_zeroes() {
    let plan = RelayPlan::from_str("forward tcp [1::2]:80 to /a").unwrap();
    assert_eq!(
        plan.network_address.ip(),
        IpAddress::V6(Ipv6Address::new(1, 0, 0, 0, 0, 0, 0, 2))
    );
    let plan = RelayPlan::from_str("forward tcp [::]:80 to /a").unwrap();
    assert_eq!(
        plan.network_address.ip(),
        IpAddress::V6(Ipv6Address::new(0, 0, 0, 0, 0, 0, 0, 0))
    );
}

#[test]
fn malformed_ipv6_addresses_fail() {
    assert!(RelayPlan::from_str("forward tcp [1:2:3]:80 to /a").is_err());
    assert!(RelayPlan::from_str("forward tcp [1::2::3]:80 to /a").is_err());
    assert!(RelayPlan::from_str("forward tcp [1:2:3:4:5:6:7:8:9]:80 to /a").is_err());
    assert!(RelayPlan::from_str("forward tcp [12345::1]:80 to /a").is_err());
    assert!(RelayPlan::from_str("forward tcp [1:2:3:4:5:6:7::8]:80 to /a").is_err());
}

#[test]
fn hex_groups_are_case_insensitive() {
    let plan = RelayPlan::from_str("forward tcp [ABcd::Ef]:80 to /a").unwrap();
    assert_eq!(
        plan.network_address.ip(),
        IpAddress::V6(Ipv6Address::new(0xabcd, 0, 0, 0, 0, 0, 0, 0xef))
    );
}

#[test]
fn config_addresses_share_the_grammar() {
    assert!(ForwardingStatement::from_str("forward tcp [2001:db8::1]:443 to /a.door").is_ok());
    assert!(ForwardingStatement::from_str("forward tcp 1.2.3.4 to /a.door").is_err());
}
