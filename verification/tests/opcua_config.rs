use opcua_plc_bridge::opcua_server::config::{ConfigError, OpcUaConfig, SecurityPolicy};

#[test]
fn default_local_is_valid() {
    let cfg = OpcUaConfig::default_local();
    cfg.validate().expect("default config must validate");
    assert_eq!(cfg.endpoint_url(), "opc.tcp://0.0.0.0:4840");
}

#[test]
fn invalid_port_rejected() {
    let mut cfg = OpcUaConfig::default_local();
    cfg.port = 0;
    let err = cfg.validate().expect_err("port 0 should be invalid");
    match err {
        ConfigError::InvalidPort(0) => {}
        other => panic!("unexpected error: {:?}", other),
    }
}

#[test]
fn empty_strings_rejected() {
    let mut cfg = OpcUaConfig::default_local();
    cfg.application_uri = "".into();
    let err = cfg
        .validate()
        .expect_err("empty application_uri should be invalid");
    match err {
        ConfigError::MissingField(ref s) if s == "application_uri" => {}
        other => panic!("unexpected error: {:?}", other),
    }
}

#[test]
fn security_policy_uris_are_correct() {
    assert_eq!(
        SecurityPolicy::NoSecurity.uri(),
        "http://opcfoundation.org/UA/SecurityPolicy#None"
    );
    assert_eq!(
        SecurityPolicy::Basic128Rsa15.uri(),
        "http://opcfoundation.org/UA/SecurityPolicy#Basic128Rsa15"
    );
    assert_eq!(
        SecurityPolicy::Basic256.uri(),
        "http://opcfoundation.org/UA/SecurityPolicy#Basic256"
    );
    assert_eq!(
        SecurityPolicy::Basic256Sha256.uri(),
        "http://opcfoundation.org/UA/SecurityPolicy#Basic256Sha256"
    );
}

#[test]
fn hostnames_are_accepted_but_are_no_socket_addresses() {
    let mut cfg = OpcUaConfig::default_local();
    let longest = "a".repeat(63);
    for host in ["localhost", "plc-bridge.example.com", "127.0.0.1", "[::1]", "4you", longest.as_str()] {
        cfg.bind_addr = host.into();
        assert!(cfg.validate().is_ok(), "{}", host);
    }
    cfg.bind_addr = "localhost".into();
    match cfg.bind_socket_addr() {
        Err(ConfigError::InvalidAddress { addr, .. }) => assert_eq!(addr, "localhost:4840"),
        other => panic!("unexpected {:?}", other),
    }
    let too_long = "a".repeat(64);
    for host in [
        "", " ", "a b", "-a", "a-", "a..b", ".a", "a.", "a_b", "256.0.0.1", "1.2.3", "::1", "\u{e9}",
        too_long.as_str(),
    ] {
        cfg.bind_addr = host.into();
        match cfg.validate() {
            Err(ConfigError::InvalidAddress { addr, reason }) => {
                assert_eq!(addr, format!("{}:4840", host));
                assert_eq!(reason, "invalid socket address syntax");
            }
            other => panic!("unexpected {:?}", other),
        }
    }
}
