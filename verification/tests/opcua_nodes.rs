use opcua_plc_bridge::core_model::{
    Float32, Float64, TagDataType, TagDefinition, TagQuality, TagRegistry, TagValue,
};
use opcua_plc_bridge::driver_common::write_request::{Confirmation, ReplyId};
use opcua_plc_bridge::opcua_server::address_space::{
    data_type_node_id, plcs_folder_name, string_node_id, AddressSpace,
};
use opcua_plc_bridge::opcua_server::data_source::{AfterSend, TagDataSource};
use opcua_plc_bridge::opcua_server::server::{access_plan, check_login, start_plan, Access};
use opcua_plc_bridge::opcua_server::variant::{
    tagquality_to_ua_status, tagvalue_to_variant, variant_to_tagvalue, StatusCode, Variant,
};
use opcua_plc_bridge::opcua_server::writes::{bridge_reply, BridgeWrite};
use opcua_plc_bridge::opcua_server::{
    OpcUaConfig, SecurityMode, ServerError, WriteMode, WriteRequest,
};
use opcua_plc_bridge::time::Timestamp;
use std::sync::mpsc;
use std::time::Duration;

fn f32_of(v: f32) -> Float32 {
    Float32::from_bits(v.to_bits())
}

#[test]
fn fins_read_write_through_datasource() {
    let defs = vec![
        TagDefinition::new(
            "ns=1;s=fins.D100",
            "PLC1.D100",
            "D100",
            TagDataType::UInt16,
            "PLC1",
        ),
        TagDefinition::new(
            "ns=1;s=fins.D101",
            "PLC1.D101",
            "D101",
            TagDataType::Float,
            "PLC1",
        ),
    ];
    let registry = TagRegistry::from_definitions(&defs).expect("build registry");

    let tag_d100 = registry.get_tag("ns=1;s=fins.D100").expect("tag exists");
    let variant_d100 = tagvalue_to_variant(&tag_d100.value).expect("convert to variant");
    assert!(matches!(variant_d100, Variant::UInt16(0)));

    let tag_d101 = registry.get_tag("ns=1;s=fins.D101").expect("tag exists");
    let variant_d101 = tagvalue_to_variant(&tag_d101.value).expect("convert to variant");
    match variant_d101 {
        Variant::Float(v) => {
            assert!((f32::from_bits(v.to_bits()) - 0.0f32).abs() < f32::EPSILON)
        }
        other => panic!("expected Float, got {:?}", other),
    }

    let recovered =
        variant_to_tagvalue(&variant_d100, TagDataType::UInt16).expect("reverse conversion");
    assert_eq!(recovered, TagValue::UInt16(0));

    let (write_tx, write_rx) = mpsc::channel::<BridgeWrite>();
    let ds = TagDataSource::new("ns=1;s=fins.D100".into(), WriteMode::QueuedAck, 1000);
    let bridge = ds
        .write(&registry, Some(&Variant::UInt16(4660)), ReplyId { number: 1 })
        .expect("write");
    write_tx.send(bridge).expect("send bridge write");
    assert!(matches!(ds.after_send(true), AfterSend::Answer(Ok(()))));

    let received = write_rx.recv().expect("receive bridge write");
    assert_eq!(received.tag_id, "ns=1;s=fins.D100");
    assert_eq!(received.value, TagValue::UInt16(4660));
    assert!(received.reply.is_none());
}

#[test]
fn modbus_variant_conversion_all_types() {
    let tv = variant_to_tagvalue(&Variant::UInt16(12345), TagDataType::UInt16)
        .expect("convert UInt16");
    assert_eq!(tv, TagValue::UInt16(12345));
    let back = tagvalue_to_variant(&tv).expect("roundtrip UInt16");
    assert!(matches!(back, Variant::UInt16(12345)));

    let tv = variant_to_tagvalue(&Variant::Int16(-1), TagDataType::Int16).expect("convert Int16");
    assert_eq!(tv, TagValue::Int16(-1));

    let pi = f32_of(std::f32::consts::PI);
    let tv = variant_to_tagvalue(&Variant::Float(pi), TagDataType::Float).expect("convert Float");
    match &tv {
        TagValue::Float(f) => assert!(
            (f32::from_bits(f.to_bits()) - std::f32::consts::PI).abs() < f32::EPSILON
        ),
        other => panic!("expected Float, got {:?}", other),
    }
    match tagvalue_to_variant(&tv).expect("roundtrip Float") {
        Variant::Float(f) => assert!(
            (f32::from_bits(f.to_bits()) - std::f32::consts::PI).abs() < f32::EPSILON
        ),
        other => panic!("expected Float, got {:?}", other),
    }

    let tv = variant_to_tagvalue(&Variant::Int32(-100_000), TagDataType::Int32)
        .expect("convert Int32");
    assert_eq!(tv, TagValue::Int32(-100_000));
    let back = tagvalue_to_variant(&tv).expect("roundtrip Int32");
    assert!(matches!(back, Variant::Int32(-100_000)));

    let tv = variant_to_tagvalue(&Variant::UInt32(3_000_000_000), TagDataType::UInt32)
        .expect("convert UInt32");
    assert_eq!(tv, TagValue::UInt32(3_000_000_000));
    let back = tagvalue_to_variant(&tv).expect("roundtrip UInt32");
    assert!(matches!(back, Variant::UInt32(3_000_000_000)));

    let pi = Float64::from_bits(std::f64::consts::PI.to_bits());
    let tv =
        variant_to_tagvalue(&Variant::Double(pi), TagDataType::Double).expect("convert Double");
    match &tv {
        TagValue::Double(d) => assert!(
            (f64::from_bits(d.to_bits()) - std::f64::consts::PI).abs() < f64::EPSILON
        ),
        other => panic!("expected Double, got {:?}", other),
    }
    match tagvalue_to_variant(&tv).expect("roundtrip Double") {
        Variant::Double(d) => assert!(
            (f64::from_bits(d.to_bits()) - std::f64::consts::PI).abs() < f64::EPSILON
        ),
        other => panic!("expected Double, got {:?}", other),
    }

    let tv = variant_to_tagvalue(&Variant::Int64(-9_223_372_036_854_775_807), TagDataType::Int64)
        .expect("convert Int64");
    assert_eq!(tv, TagValue::Int64(-9_223_372_036_854_775_807));
    let back = tagvalue_to_variant(&tv).expect("roundtrip Int64");
    assert!(matches!(back, Variant::Int64(-9_223_372_036_854_775_807)));

    let tv =
        variant_to_tagvalue(&Variant::UInt64(18_446_744_073_709_551_615), TagDataType::UInt64)
            .expect("convert UInt64");
    assert_eq!(tv, TagValue::UInt64(18_446_744_073_709_551_615));

    let tv =
        variant_to_tagvalue(&Variant::Boolean(true), TagDataType::Bool).expect("convert Bool");
    assert_eq!(tv, TagValue::Bool(true));
    let back = tagvalue_to_variant(&tv).expect("roundtrip Bool");
    assert!(matches!(back, Variant::Boolean(true)));

    let err = variant_to_tagvalue(&Variant::Float(f32_of(1.0)), TagDataType::UInt16)
        .expect_err("type mismatch should fail");
    assert!(err.contains("UInt16"), "error should mention UInt16: {err}");
    assert_eq!(err, "Expected UInt16");
}

fn source(id: &str, mode: WriteMode, timeout_ms: u64) -> (TagRegistry, TagDataSource) {
    let defs = vec![TagDefinition::new(id, "Tag", "W200", TagDataType::UInt16, "PLC")];
    let registry = TagRegistry::from_definitions(&defs).expect("build registry");
    (registry, TagDataSource::new(id.into(), mode, timeout_ms))
}

#[test]
fn write_confirmation_with_confirmed_ack() {
    let (registry, ds) = source("ns=1;s=tag.confirm", WriteMode::ConfirmedAck, 500);
    let id = ReplyId { number: 77 };
    let write = ds.write(&registry, Some(&Variant::UInt16(99)), id).expect("write");
    let timeout = match ds.after_send(true) {
        AfterSend::AwaitConfirmation(ms) => ms,
        other => panic!("unexpected {:?}", other),
    };
    assert_eq!(timeout, 500);

    let (request, reply) = write.into_request();
    assert_eq!(request.tag_id, "ns=1;s=tag.confirm");
    assert_eq!(request.value, TagValue::UInt16(99));
    let reply = bridge_reply(reply, Ok(())).expect("ConfirmedAck must have reply channel");
    assert_eq!(reply.to, id);
    let result = TagDataSource::after_confirmation(&Confirmation::Replied(reply.result));
    assert!(result.is_ok(), "write should be acknowledged successfully");
}

#[test]
fn write_confirmation_reply_disconnected() {
    let (registry, ds) = source("ns=1;s=tag.drop", WriteMode::ConfirmedAck, 200);
    let write = ds
        .write(&registry, Some(&Variant::UInt16(1)), ReplyId { number: 1 })
        .expect("write");
    let (reply_tx, reply_rx) = mpsc::channel::<Result<(), String>>();
    drop(write);
    drop(reply_tx);
    let confirmation = match reply_rx.recv_timeout(Duration::from_millis(100)) {
        Err(mpsc::RecvTimeoutError::Disconnected) => Confirmation::Closed,
        other => panic!("expected RecvTimeoutError::Disconnected, got {:?}", other),
    };
    assert_eq!(
        TagDataSource::after_confirmation(&confirmation),
        Err(StatusCode::BadInternalError)
    );
}

#[test]
fn write_confirmation_timeout() {
    let (registry, ds) = source("ns=1;s=tag.slow", WriteMode::ConfirmedAck, 50);
    let write = ds
        .write(&registry, Some(&Variant::UInt16(1)), ReplyId { number: 1 })
        .expect("write");
    assert!(write.reply.is_some());
    let (_reply_tx, reply_rx) = mpsc::channel::<Result<(), String>>();
    let confirmation = match reply_rx.recv_timeout(Duration::from_millis(50)) {
        Err(mpsc::RecvTimeoutError::Timeout) => Confirmation::TimedOut,
        other => panic!("unexpected result: {:?}", other),
    };
    assert_eq!(
        TagDataSource::after_confirmation(&confirmation),
        Err(StatusCode::BadInternalError)
    );
}

#[test]
fn reported_failures_reach_the_client() {
    let reply =
        bridge_reply(Some(ReplyId { number: 1 }), Err(ServerError::Other("no".into()))).unwrap();
    assert_eq!(reply.result, Err("Other: no".to_string()));
    assert_eq!(
        TagDataSource::after_confirmation(&Confirmation::Replied(reply.result)),
        Err(StatusCode::BadInternalError)
    );
    assert!(bridge_reply(None, Ok(())).is_none());
}

#[test]
fn reads_carry_status_and_timestamps() {
    let (mut registry, ds) = source("t", WriteMode::QueuedAck, 0);
    let v = ds.read(&registry).unwrap();
    assert_eq!(v.status, StatusCode::Good);
    assert!(matches!(v.variant, Variant::UInt16(0)));

    let source_ts = Timestamp::from_nanos(1_500_000_000_000_000_001);
    registry
        .update_tag_value("t", TagValue::UInt16(8), TagQuality::Stale, source_ts)
        .unwrap();
    let v = ds.read(&registry).unwrap();
    assert_eq!(v.status, StatusCode::UncertainSubNormal);
    assert!(matches!(v.variant, Variant::UInt16(8)));
    assert_eq!(v.source_nanos, 1_500_000_000_000_000_001);
    assert!(v.server_nanos > v.source_nanos);

    let far = Timestamp::from_parts(8_000_000_000_000, 0).unwrap();
    registry.update_tag_value("t", TagValue::UInt16(8), TagQuality::Good, far).unwrap();
    assert_eq!(ds.read(&registry).unwrap().source_nanos, 0);

    let missing = TagDataSource::new("nope".into(), WriteMode::QueuedAck, 0);
    assert!(matches!(missing.read(&registry), Err(StatusCode::BadInternalError)));
}

#[test]
fn writes_without_a_fitting_value_fail() {
    let (registry, ds) = source("t", WriteMode::QueuedAck, 0);
    let id = ReplyId { number: 1 };
    assert!(matches!(ds.write(&registry, None, id), Err(StatusCode::BadInternalError)));
    assert!(matches!(
        ds.write(&registry, Some(&Variant::Other), id),
        Err(StatusCode::BadInternalError)
    ));
    let missing = TagDataSource::new("nope".into(), WriteMode::QueuedAck, 0);
    assert!(matches!(
        missing.write(&registry, Some(&Variant::UInt16(1)), id),
        Err(StatusCode::BadInternalError)
    ));
    assert!(matches!(
        ds.after_send(false),
        AfterSend::Answer(Err(StatusCode::BadInternalError))
    ));
}

#[test]
fn qualities_have_status_codes() {
    let cases = [
        (TagQuality::Good, StatusCode::Good),
        (TagQuality::Initializing, StatusCode::UncertainSubNormal),
        (TagQuality::Stale, StatusCode::UncertainSubNormal),
        (TagQuality::Substitute, StatusCode::UncertainSubNormal),
        (TagQuality::CommLost, StatusCode::BadUnexpectedError),
        (TagQuality::ConfigError, StatusCode::BadUnexpectedError),
        (TagQuality::TypeMismatch, StatusCode::BadUnexpectedError),
        (TagQuality::Error("x".into()), StatusCode::BadUnexpectedError),
    ];
    for (q, s) in cases {
        assert_eq!(tagquality_to_ua_status(&q), s);
    }
}

#[test]
fn times_and_texts_cross_as_variants() {
    let t = Timestamp::from_nanos(-1);
    match tagvalue_to_variant(&TagValue::DateTime(t)) {
        Some(Variant::DateTime(n)) => {
            assert_eq!(n, -1);
            assert_eq!(
                variant_to_tagvalue(&Variant::DateTime(n), TagDataType::DateTime).unwrap(),
                TagValue::DateTime(t)
            );
        }
        other => panic!("unexpected {:?}", other),
    }
    let far = Timestamp::from_parts(8_000_000_000_000, 0).unwrap();
    assert!(tagvalue_to_variant(&TagValue::DateTime(far)).is_none());
    // Of the nanoseconds the lowest 64 bits count.
    assert_eq!(
        variant_to_tagvalue(&Variant::DateTime((1i128 << 64) + 5), TagDataType::DateTime).unwrap(),
        TagValue::DateTime(Timestamp::from_nanos(5))
    );
    match tagvalue_to_variant(&TagValue::String("s".into())) {
        Some(Variant::String(s)) => assert_eq!(s, "s"),
        other => panic!("unexpected {:?}", other),
    }
    match tagvalue_to_variant(&TagValue::ByteString(vec![1, 2])) {
        Some(Variant::ByteString(b)) => assert_eq!(b, vec![1, 2]),
        other => panic!("unexpected {:?}", other),
    }
}

#[test]
fn string_ids_stand_behind_their_marker() {
    for id in [
        "ns=1;s=PLC1.Tag1",
        "plain",
        "ns=1;s=a;s=b",
        ";s=",
        "x;s=",
        "ns=2;s=\u{e9}\u{20ac};s=z",
        ";s;s=q",
        "",
    ] {
        let expected = id.split(";s=").nth(1).unwrap_or(id);
        assert_eq!(string_node_id(id), expected);
    }
}

#[test]
fn the_address_space_has_folders_and_nodes() {
    let mut defs = vec![
        TagDefinition::new("ns=1;s=b", "B", "1", TagDataType::Float, "P2"),
        TagDefinition::new("ns=1;s=a", "A", "1", TagDataType::UInt16, "P1"),
        TagDefinition::new("ns=1;s=c", "C", "1", TagDataType::ByteString, "P1"),
    ];
    defs[1].writable = true;
    let registry = TagRegistry::from_definitions(&defs).unwrap();
    let space = AddressSpace::of(&registry);
    assert_eq!(space.folders, vec!["P1".to_string(), "P2".to_string()]);
    let nodes: Vec<_> = space
        .variables
        .iter()
        .map(|v| {
            (v.tag_id.as_str(), v.string_id.as_str(), v.folder, v.browse_name.as_str(), v.data_type, v.writable)
        })
        .collect();
    assert_eq!(
        nodes,
        vec![
            ("ns=1;s=a", "a", 0, "A", 5, true),
            ("ns=1;s=b", "b", 1, "B", 10, false),
            ("ns=1;s=c", "c", 0, "C", 15, false),
        ]
    );
    assert_eq!(plcs_folder_name(), "PLCs");
    assert_eq!(data_type_node_id(TagDataType::DateTime), 13);
    assert_eq!(data_type_node_id(TagDataType::Bool), 1);
}

#[test]
fn security_needs_certificate_and_key() {
    let mut cfg = OpcUaConfig::default_local();
    let plan = start_plan(&cfg, false).unwrap();
    assert_eq!(plan.endpoint, "opc.tcp://0.0.0.0:4840");
    assert!(plan.security.is_none());
    cfg.security_mode = SecurityMode::Sign;
    match start_plan(&cfg, false) {
        Err(ServerError::Config(m)) => assert_eq!(
            m,
            "server_certificate_path is required when security_mode is not None"
        ),
        other => panic!("unexpected {:?}", other),
    }
    cfg.certificates.server_certificate_path = Some("c.der".into());
    match start_plan(&cfg, false) {
        Err(ServerError::Config(m)) => assert_eq!(
            m,
            "server_private_key_path is required when security_mode is not None"
        ),
        other => panic!("unexpected {:?}", other),
    }
    cfg.certificates.server_private_key_path = Some("k.der".into());
    let security = start_plan(&cfg, false).unwrap().security.unwrap();
    assert_eq!(security.certificate_path, "c.der");
    assert_eq!(security.private_key_path, "k.der");
    assert!(security.accept_all);
    assert_eq!(security.min_key_length, 2048);
    cfg.certificates.trust_store_dir = Some("trust".into());
    assert!(!start_plan(&cfg, false).unwrap().security.unwrap().accept_all);
}

#[test]
fn access_is_as_configured() {
    let mut cfg = OpcUaConfig::default_local();
    assert_eq!(access_plan(&cfg, false), Access::Anonymous);
    let plan = start_plan(&cfg, false).unwrap();
    assert_eq!(plan.access, Access::Anonymous);
    assert_eq!((plan.max_sessions, plan.max_subscriptions), (100, 1000));
    cfg.anonymous_enabled = false;
    assert_eq!(access_plan(&cfg, false), Access::RejectAll);
    assert_eq!(access_plan(&cfg, true), Access::RejectAll);
    assert_eq!(start_plan(&cfg, false).unwrap().access, Access::RejectAll);
    cfg.certificates.trust_store_dir = Some("trust".into());
    assert_eq!(access_plan(&cfg, false), Access::RejectAll);
    cfg.security_mode = SecurityMode::SignAndEncrypt;
    assert_eq!(access_plan(&cfg, false), Access::TrustedCertificates);
    cfg.username_password_enabled = true;
    assert_eq!(access_plan(&cfg, false), Access::TrustedCertificates);
    assert_eq!(access_plan(&cfg, true), Access::Login { anonymous: false });
    cfg.anonymous_enabled = true;
    assert_eq!(access_plan(&cfg, true), Access::Login { anonymous: true });
}

#[test]
fn login_needs_permission() {
    let mut cfg = OpcUaConfig::default_local();
    assert!(check_login(&cfg, false).is_ok());
    match check_login(&cfg, true) {
        Err(ServerError::Config(m)) => {
            assert_eq!(m, "username/password authentication disabled in config")
        }
        other => panic!("unexpected {:?}", other),
    }
    cfg.username_password_enabled = true;
    assert!(check_login(&cfg, true).is_ok());
}

#[test]
fn write_requests_hold_tag_and_value() {
    let r = WriteRequest::new("t", TagValue::Bool(true));
    assert_eq!(r.tag_id, "t");
    assert_eq!(r.value, TagValue::Bool(true));
}
