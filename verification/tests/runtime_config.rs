use opcua_plc_bridge::runtime::config::{
    parse_security_mode, parse_security_policy, parse_write_mode,
};

#[test]
fn write_mode_strict_parsing() {
    assert!(parse_write_mode("QueuedAck").is_ok());
    assert!(parse_write_mode("ConfirmedAck").is_ok());
    assert!(parse_write_mode("").is_ok());
    assert!(parse_write_mode("BadValue").is_err());
}

#[test]
fn security_mode_strict_parsing() {
    assert!(parse_security_mode(Some("None")).is_ok());
    assert!(parse_security_mode(Some("Sign")).is_ok());
    assert!(parse_security_mode(Some("SignAndEncrypt")).is_ok());
    assert!(parse_security_mode(None).is_ok());
    assert!(parse_security_mode(Some("InsecureStuff")).is_err());
}

#[test]
fn security_policy_strict_parsing() {
    assert!(parse_security_policy(Some("None")).is_ok());
    assert!(parse_security_policy(Some("Basic256Sha256")).is_ok());
    assert!(parse_security_policy(None).is_ok());
    assert!(parse_security_policy(Some("Unknown")).is_err());
}
