use portunusd::relay_plan::{RelayPlan, RelayPlanParseError};

#[test]
fn can_parse_plan_config_statement() {
    let statement = "forward 0.0.0.0 port 80 to /var/run/app.door";
    let plan = RelayPlan::from_str(statement).expect("Failed to parse");
    assert_eq!(plan.door_address, "/var/run/app.door");
    assert_eq!(plan.network_address.port(), 80);
    assert_eq!(plan.network_address.is_ipv4(), true);
}

#[test]
fn parsing_supports_ipv6() {
    let statement = "forward :: port 80 to /var/run/app.door";
    let plan = RelayPlan::from_str(statement).unwrap();
    assert_eq!(plan.network_address.port(), 80);
    assert_eq!(plan.network_address.is_ipv4(), false);
}

#[test]
fn too_few_words_is_an_error() {
    assert_eq!(
        RelayPlan::from_str("forward 0.0.0.0 port 80"),
        Err(RelayPlanParseError::MissingComponents)
    );
}

#[test]
fn bad_address_word_is_an_error() {
    assert_eq!(
        RelayPlan::from_str("forward nowhere port 80 to /a.door"),
        Err(RelayPlanParseError::AddrParse)
    );
}

#[test]
fn bad_port_word_is_an_error() {
    assert_eq!(
        RelayPlan::from_str("forward 0.0.0.0 port eighty to /a.door"),
        Err(RelayPlanParseError::ParseInt)
    );
    assert_eq!(
        RelayPlan::from_str("forward 0.0.0.0 port 65536 to /a.door"),
        Err(RelayPlanParseError::ParseInt)
    );
}

#[test]
fn port_word_accepts_a_plus_sign() {
    let plan = RelayPlan::from_str("forward 0.0.0.0 port +80 to /a.door").unwrap();
    assert_eq!(plan.network_address.port(), 80);
}
