use revtunnel::config::{
    build_config, key_file_action, parse_redirect, parse_redirects, ConfigError, ConfigValue, GatewayConfig,
    KeyFileAction, Port, Protocol, RawConfig, SpecificConfig,
};

fn num(x: i64) -> ConfigValue {
    ConfigValue::Integer(x)
}

fn text(s: &str) -> ConfigValue {
    ConfigValue::Text(s.to_string())
}

fn raw(mode: &str, redirects: Option<Vec<Vec<ConfigValue>>>, address: Option<&str>) -> RawConfig {
    RawConfig {
        mode: mode.to_string(),
        port: 7000,
        gateway_address: address.map(|s| s.to_string()),
        http_proxy: None,
        redirects,
    }
}

#[test]
fn redirect_forms() {
    assert_eq!(parse_redirect(&vec![num(9000), num(8080), text("TCP")]), Ok((Port::new_tcp(9000), 8080)));
    assert_eq!(
        parse_redirect(&vec![num(53), text("UDP")]),
        Ok((Port { port: 53, protocol: Protocol::UDP }, 53))
    );
}

#[test]
fn redirect_errors() {
    assert_eq!(parse_redirect(&vec![num(1)]), Err(ConfigError::BadRedirectShape));
    assert_eq!(parse_redirect(&vec![num(1), num(2), text("TCP"), num(4)]), Err(ConfigError::BadRedirectShape));
    assert_eq!(parse_redirect(&vec![num(1), num(2)]), Err(ConfigError::BadRedirectShape));
    assert_eq!(parse_redirect(&vec![text("a"), text("TCP")]), Err(ConfigError::PortNotInteger));
    assert_eq!(parse_redirect(&vec![num(70000), text("TCP")]), Err(ConfigError::PortOutOfRange));
    assert_eq!(parse_redirect(&vec![num(-1), text("TCP")]), Err(ConfigError::PortOutOfRange));
    assert_eq!(parse_redirect(&vec![num(1), num(65536), text("TCP")]), Err(ConfigError::PortOutOfRange));
    assert_eq!(parse_redirect(&vec![num(1), text("SCTP")]), Err(ConfigError::BadProtocol));
    assert_eq!(parse_redirect(&vec![num(1), ConfigValue::Other]), Err(ConfigError::ProtocolNotString));
}

#[test]
fn duplicate_ports_rejected() {
    let entries = vec![vec![num(9000), num(8080), text("TCP")], vec![num(9000), text("TCP")]];
    assert_eq!(parse_redirects(&entries), Err(ConfigError::DuplicatePort));
    let entries = vec![vec![num(9000), text("TCP")], vec![num(9000), text("UDP")]];
    assert_eq!(parse_redirects(&entries).unwrap().len(), 2);
    assert_eq!(parse_redirects(&vec![]).unwrap(), vec![]);
}

#[test]
fn server_config_from_raw() {
    let r = raw("server", Some(vec![vec![num(9000), num(8080), text("TCP")]]), Some("127.0.0.1"));
    match build_config(r) {
        Ok(SpecificConfig::Server(c)) => {
            assert_eq!(c.redirects, vec![(Port::new_tcp(9000), 8080)]);
            assert_eq!(c.gateway_address, "127.0.0.1:7000");
            assert_eq!(c.proxy, None);
        }
        _ => panic!("expected a server configuration"),
    }
}

#[test]
fn gateway_config_from_raw() {
    match build_config(raw("gateway", None, None)) {
        Ok(SpecificConfig::Gateway(GatewayConfig { port })) => assert_eq!(port, 7000),
        _ => panic!("expected a gateway configuration"),
    }
}

#[test]
fn config_errors() {
    assert!(matches!(build_config(raw("relay", None, None)), Err(ConfigError::BadMode)));
    assert!(matches!(build_config(raw("server", None, Some("h"))), Err(ConfigError::MissingRedirects)));
    assert!(matches!(build_config(raw("server", Some(vec![]), None)), Err(ConfigError::MissingGatewayAddress)));
}

#[test]
fn key_file_policy() {
    let g = SpecificConfig::Gateway(GatewayConfig { port: 1 });
    assert_eq!(key_file_action(&g, true), Ok(KeyFileAction::Read));
    assert_eq!(key_file_action(&g, false), Ok(KeyFileAction::Create));
    let s = build_config(raw("server", Some(vec![]), Some("h"))).ok().unwrap();
    assert_eq!(key_file_action(&s, false), Err(ConfigError::MissingKey));
}

#[test]
fn gateway_address_port_in_decimal() {
    for (port, text) in [(0u16, "h:0"), (5, "h:5"), (10, "h:10"), (65535, "h:65535")] {
        let mut r = raw("server", Some(vec![]), Some("h"));
        r.port = port;
        match build_config(r) {
            Ok(SpecificConfig::Server(c)) => assert_eq!(c.gateway_address, text),
            _ => panic!("expected a server configuration"),
        }
    }
}
