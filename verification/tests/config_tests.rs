use portunusd::addr::{IpAddress, Ipv4Address, SocketAddress};
use portunusd::config::{
    Atlas, Config, ForwardingStatement, ForwardingTarget, MapStatement, Method, Parameter,
    ParseError, Protocol,
};

#[test]
fn can_parse_method() {
    assert_eq!(Method::from_str("GET"), Ok(Method::GET));
    assert_eq!(Method::from_str("PUT"), Ok(Method::PUT));
}

#[test]
#[should_panic]
fn cannot_parse_invalid_method() {
    Method::from_str("CREATE").unwrap();
}

#[test]
fn can_parse_map_statement() {
    let actual = MapStatement::from_str("map GET /primes to /var/run/eratosthenes.door").unwrap();
    let expected = MapStatement {
        method: Method::GET,
        prefix: "/primes".to_string(),
        door: "/var/run/eratosthenes.door".to_string(),
    };
    assert_eq!(actual, expected);
}

#[test]
fn can_parse_atlas() {
    let actual = Atlas::from_str(
        r#"{
            map GET /primes to /var/run/eratosthenes.door
            map POST /blog to /var/run/update_blog.door
        }"#,
    )
    .unwrap();
    let maps = vec![
        MapStatement {
            method: Method::GET,
            prefix: "/primes".to_string(),
            door: "/var/run/eratosthenes.door".to_string(),
        },
        MapStatement {
            method: Method::POST,
            prefix: "/blog".to_string(),
            door: "/var/run/update_blog.door".to_string(),
        },
    ];
    let expected = Atlas { maps };
    assert_eq!(actual, expected);
}

#[test]
fn can_parse_forwarding_target() {
    let actual = ForwardingTarget::from_str("/door/path").unwrap();
    let expected = ForwardingTarget::Door("/door/path".to_string());
    assert_eq!(actual, expected);

    let actual = ForwardingTarget::from_str(
        r#"{
            map GET /primes to /var/run/eratosthenes.door
            map POST /blog to /var/run/update_blog.door
        }"#,
    )
    .unwrap();
    let maps = vec![
        MapStatement {
            method: Method::GET,
            prefix: "/primes".to_string(),
            door: "/var/run/eratosthenes.door".to_string(),
        },
        MapStatement {
            method: Method::POST,
            prefix: "/blog".to_string(),
            door: "/var/run/update_blog.door".to_string(),
        },
    ];
    let atlas = Atlas { maps };
    let expected = ForwardingTarget::Atlas(atlas);
    assert_eq!(actual, expected);
}

#[test]
fn can_parse_protocol() {
    assert_eq!(Protocol::from_str("udp").unwrap(), Protocol::UDP);
    assert_eq!(Protocol::from_str("tcp").unwrap(), Protocol::TCP);
    assert_eq!(Protocol::from_str("tls").unwrap(), Protocol::TLS);
    assert_eq!(Protocol::from_str("http").unwrap(), Protocol::HTTP);
    assert_eq!(Protocol::from_str("https").unwrap(), Protocol::HTTPS);
}

#[test]
#[should_panic]
fn cannot_parse_invalid_protocol() {
    Protocol::from_str("ICMP").unwrap();
}

#[test]
fn can_parse_forwarding_statement_with_door() {
    let actual = ForwardingStatement::from_str("forward udp 0.0.0.0:53 to /dns.door").unwrap();
    let target = ForwardingTarget::Door("/dns.door".to_string());
    let protocol = Protocol::from_str("udp").unwrap();
    let address = SocketAddress::new(IpAddress::V4(Ipv4Address::new(0, 0, 0, 0)), 53);
    let expected = ForwardingStatement { protocol, address, target };
    assert_eq!(actual, expected);
}

#[test]
fn can_parse_forwarding_statement_with_atlas() {
    let actual = ForwardingStatement::from_str(
        r#"forward http 0.0.0.0:80 to {
            map GET / to /var/run/acme_client.door
        }"#,
    )
    .unwrap();
    let maps = vec![MapStatement {
        method: Method::GET,
        prefix: "/".to_string(),
        door: "/var/run/acme_client.door".to_string(),
    }];
    let atlas = Atlas { maps };
    let target = ForwardingTarget::Atlas(atlas);
    let protocol = Protocol::from_str("http").unwrap();
    let address = SocketAddress::new(IpAddress::V4(Ipv4Address::new(0, 0, 0, 0)), 80);
    let expected = ForwardingStatement { protocol, address, target };
    assert_eq!(actual, expected);
}

#[test]
fn can_parse_parameter() {
    let actual = Parameter::from_str("set pi 22/7").unwrap();
    let expected = Parameter { key: "pi".to_string(), value: "22/7".to_string() };
    assert_eq!(actual, expected);
}

#[test]
fn can_parse_file() {
    let config = Config::from_str(
        r#"# Cool comment
set domain example.org
set certificate /opt/local/etc/certificates/example.org.pem
set key /opt/local/etc/certificates/example.org.key

# DNS
forward udp 0.0.0.0:53 to /var/run/dns.door
forward tcp 0.0.0.0:53 to /var/run/dns.door

# Blog
forward http 0.0.0.0:80 to {
    map GET / to /var/run/acme_client.door
}

forward https 0.0.0.0:443 to {
    map GET / to /var/run/blog_content.door
    map POST /signup to /var/run/subscribe.door
    map DELETE /signup to /var/run/unsubscribe.door
}
"#,
    )
    .unwrap();

    assert_eq!(config.parameter("domain").unwrap(), "example.org");
    assert_eq!(config.statements[0].protocol, Protocol::UDP);
    assert_eq!(config.statements.len(), 4);
}

#[test]
fn latest_parameter_binding_wins() {
    let config = Config::from_str("set domain one.example\nset domain two.example\n").unwrap();
    assert_eq!(config.parameter("domain").unwrap(), "two.example");
    assert_eq!(config.parameter("absent"), None);
}

#[test]
fn config_rejects_nonsense_line() {
    assert_eq!(Config::from_str("gibberish here"), Err(ParseError::UnparseableLine));
}

#[test]
fn config_accepts_unclosed_block() {
    // a block that is never closed absorbs the rest of the file
    let config = Config::from_str("forward http 0.0.0.0:80 to {\n    map GET / to /a.door\n")
        .unwrap();
    assert_eq!(config.statements.len(), 1);
}

#[test]
fn map_statement_errors_name_the_missing_piece() {
    assert_eq!(MapStatement::from_str("chart GET / to /a"), Err(ParseError::MapKeyword));
    assert_eq!(MapStatement::from_str("map"), Err(ParseError::MapMissingMethod));
    assert_eq!(MapStatement::from_str("map FROB / to /a"), Err(ParseError::UnknownMethod));
    assert_eq!(MapStatement::from_str("map GET"), Err(ParseError::MapMissingPrefix));
    assert_eq!(MapStatement::from_str("map GET /prefix"), Err(ParseError::MapMissingTo));
    assert_eq!(MapStatement::from_str("map GET /prefix at /a"), Err(ParseError::MapMissingTo));
    assert_eq!(MapStatement::from_str("map GET /prefix to"), Err(ParseError::MapMissingDoor));
}

#[test]
fn atlas_errors_name_the_missing_brace() {
    assert_eq!(Atlas::from_str("map GET / to /a"), Err(ParseError::AtlasOpenBrace));
    assert_eq!(Atlas::from_str("{ map GET / to /a"), Err(ParseError::AtlasCloseBrace));
    assert_eq!(Atlas::from_str("{ map GET / to }"), Err(ParseError::MapMissingDoor));
}

#[test]
fn empty_atlas_has_no_maps() {
    let atlas = Atlas::from_str("{ }").unwrap();
    assert_eq!(atlas.maps.len(), 0);
}

#[test]
fn forwarding_statement_errors_name_the_missing_piece() {
    assert_eq!(
        ForwardingStatement::from_str("send udp 0.0.0.0:53 to /a"),
        Err(ParseError::ForwardKeyword)
    );
    assert_eq!(ForwardingStatement::from_str("forward"), Err(ParseError::ForwardMissingProtocol));
    assert_eq!(
        ForwardingStatement::from_str("forward icmp 0.0.0.0:53 to /a"),
        Err(ParseError::UnknownProtocol)
    );
    assert_eq!(
        ForwardingStatement::from_str("forward udp"),
        Err(ParseError::ForwardMissingAddress)
    );
    assert_eq!(
        ForwardingStatement::from_str("forward udp nowhere to /a"),
        Err(ParseError::InvalidAddress)
    );
    assert_eq!(
        ForwardingStatement::from_str("forward udp 0.0.0.0:53"),
        Err(ParseError::ForwardMissingTo)
    );
    assert_eq!(
        ForwardingStatement::from_str("forward udp 0.0.0.0:53 to"),
        Err(ParseError::ForwardMissingTarget)
    );
    assert_eq!(
        ForwardingStatement::from_str("forward udp 0.0.0.0:53 to door"),
        Err(ParseError::TargetShape)
    );
}

#[test]
fn parameter_errors_name_the_missing_piece() {
    assert_eq!(Parameter::from_str("put pi 3"), Err(ParseError::ParameterKeyword));
    assert_eq!(Parameter::from_str("set"), Err(ParseError::ParameterMissingKey));
    assert_eq!(Parameter::from_str("set pi"), Err(ParseError::ParameterMissingValue));
}
