use aidflow::config::{parse_port, Config, ConfigError};

#[test]
fn config_defaults() {
    let c = Config::from_values(Some("postgres://db".to_string()), None, None, None, None).unwrap();
    assert_eq!(c.database_url, "postgres://db");
    assert_eq!(c.port, 5000);
    assert_eq!(c.stellar_network, "testnet");
    assert_eq!(c.stellar_horizon_url, "https://horizon-testnet.stellar.org");
    assert_eq!(c.contract_id, "");
}

#[test]
fn config_given_values() {
    let c = Config::from_values(
        Some("u".to_string()),
        Some("8080".to_string()),
        Some("mainnet".to_string()),
        Some("https://h".to_string()),
        Some("CID".to_string()),
    )
    .unwrap();
    assert_eq!(c.port, 8080);
    assert_eq!(c.stellar_network, "mainnet");
    assert_eq!(c.stellar_horizon_url, "https://h");
    assert_eq!(c.contract_id, "CID");
    let bad = Config::from_values(Some("u".to_string()), Some("eighty".to_string()), None, None, None).unwrap();
    assert_eq!(bad.port, 5000);
}

#[test]
fn config_requires_database_url() {
    assert_eq!(Config::from_values(None, None, None, None, None).err(), Some(ConfigError::MissingDatabaseUrl));
}

#[test]
fn port_parsing() {
    assert_eq!(parse_port("0"), Some(0));
    assert_eq!(parse_port("65535"), Some(65535));
    assert_eq!(parse_port("+443"), Some(443));
    assert_eq!(parse_port("65536"), None);
    assert_eq!(parse_port("999999999999"), None);
    assert_eq!(parse_port(""), None);
    assert_eq!(parse_port("+"), None);
    assert_eq!(parse_port("-1"), None);
    assert_eq!(parse_port("8o"), None);
}
