use state_root_relay::config::{Config, ConfigError, Settings};

const KEY: &str = "4c0883a69102937d6231471b5dbb6204fe5129617082792ae468d01a3f362318";
const ADDRESS: &str = "0x5FbDB2315678afecb367f032d93F642f64180aa3";
const TOPIC: &str = "0x00000000000000000000000000000000000000000000000000000000000000ff";

fn settings(credential: &str) -> Settings {
    Settings {
        l1_endpoint: Some("http://127.0.0.1:8545".to_string()),
        anchor_contract: Some(ADDRESS.to_string()),
        signing_credential: Some(credential.to_string()),
        target_contract: Some("1111111111111111111111111111111111111111".to_string()),
        event_topic: Some(TOPIC.to_string()),
    }
}

fn error_of(s: Settings) -> ConfigError {
    match Config::from_settings(s) {
        Ok(_) => panic!("settings accepted"),
        Err(e) => e,
    }
}

#[test]
fn valid_settings_are_read() {
    let c = Config::from_settings(settings(KEY)).unwrap();
    assert_eq!(c.l1_endpoint, "http://127.0.0.1:8545");
    assert_eq!(c.anchor_contract[0], 0x5f);
    assert_eq!(c.anchor_contract[19], 0xa3);
    assert_eq!(c.filter.contract, [0x11; 20]);
    let mut topic = [0u8; 32];
    topic[31] = 0xff;
    assert_eq!(c.filter.incremented_topic, topic);
}

#[test]
fn malformed_credential_is_refused() {
    assert_eq!(error_of(settings("not-a-key")), ConfigError::MalformedCredential);
    assert_eq!(error_of(settings(&"0".repeat(64))), ConfigError::MalformedCredential);
    let order = "FFFFFFFFFFFFFFFFFFFFFFFFFFFFFFFEBAAEDCE6AF48A03BBFD25E8CD0364141";
    assert_eq!(error_of(settings(order)), ConfigError::MalformedCredential);
    assert_eq!(error_of(settings(&KEY[..62])), ConfigError::MalformedCredential);
    let below = "FFFFFFFFFFFFFFFFFFFFFFFFFFFFFFFEBAAEDCE6AF48A03BBFD25E8CD0364140";
    assert!(Config::from_settings(settings(below)).is_ok());
}

#[test]
fn missing_settings_are_refused_in_order() {
    let mut s = settings(KEY);
    s.l1_endpoint = None;
    s.signing_credential = None;
    assert_eq!(error_of(s), ConfigError::MissingEndpoint);
    let mut s = settings(KEY);
    s.anchor_contract = None;
    assert_eq!(error_of(s), ConfigError::MissingAnchorContract);
    let mut s = settings(KEY);
    s.signing_credential = None;
    assert_eq!(error_of(s), ConfigError::MissingCredential);
    let mut s = settings(KEY);
    s.target_contract = None;
    assert_eq!(error_of(s), ConfigError::MissingTargetContract);
    let mut s = settings(KEY);
    s.event_topic = None;
    assert_eq!(error_of(s), ConfigError::MissingEventTopic);
}

#[test]
fn malformed_addresses_and_topic_are_refused() {
    let mut s = settings(KEY);
    s.anchor_contract = Some("0x1234".to_string());
    assert_eq!(error_of(s), ConfigError::MalformedAnchorContract);
    let mut s = settings(KEY);
    s.target_contract = Some("zz11111111111111111111111111111111111111".to_string());
    assert_eq!(error_of(s), ConfigError::MalformedTargetContract);
    let mut s = settings(KEY);
    s.event_topic = Some("0xff".to_string());
    assert_eq!(error_of(s), ConfigError::MalformedEventTopic);
}

#[test]
fn address_blanks_are_skipped() {
    let mut s = settings(KEY);
    s.target_contract = Some("0x11111111111111111111 11111111111111111111".to_string());
    let c = Config::from_settings(s).unwrap();
    assert_eq!(c.filter.contract, [0x11; 20]);
}
