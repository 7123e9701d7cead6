use opcua_plc_bridge::core_model::{
    TagDataType, TagDefinition, TagQuality, TagRegistry, TagValue, WordOrder,
};
use opcua_plc_bridge::driver_common::health::HealthEvent;
use opcua_plc_bridge::driver_common::next_backoff;
use opcua_plc_bridge::driver_common::write_request::{Confirmation, ReplyId};
use opcua_plc_bridge::opcua_server::{
    SecurityMode, SecurityPolicy, ServerError, WriteMode, WriteRequest,
};
use opcua_plc_bridge::runtime::config::{
    after_first_parse, after_second_parse, config_format, ConfigFormat, OpcUaConfig, ParseStep,
    PlcConfig, RuntimeConfig, TagConfig,
};
use opcua_plc_bridge::runtime::health_board::HealthBoard;
use opcua_plc_bridge::runtime::runtime_driver::{
    check_stale_tags, PollAction, PollEvent, RuntimeDriver,
};
use opcua_plc_bridge::runtime::setup::{
    convert_definitions, fins_config, is_insecure, modbus_config, opcua_settings, plc_names,
    plc_protocol, runtime_limits, Protocol,
};
use opcua_plc_bridge::runtime::tags::{
    tagconfig_to_definition, tagconfig_to_fins_mapping, tagconfig_to_modbus_mapping,
};
use opcua_plc_bridge::runtime::write_handler::{
    confirm_result, driver_request, enqueue_result, Enqueued, Route, RuntimeWriteHandler,
};
use opcua_plc_bridge::time::Timestamp;

#[test]
fn convert_definition_ok() {
    let t = TagConfig {
        id: "T".into(),
        name: "Tag".into(),
        address: "100".into(),
        data_type: "UInt16".into(),
        writable: true,
        byte_order: None,
        word_count: None,
        area: None,
    };
    let def = tagconfig_to_definition(&t, "PLC1").expect("convert");
    assert_eq!(def.id, "T");
    assert!(def.writable);
    assert_eq!(def.plc_name, "PLC1");
}

#[test]
fn fins_mapping_parsing() {
    let t = TagConfig {
        id: "t1".into(),
        name: "t1".into(),
        address: "D100".into(),
        data_type: "UInt16".into(),
        writable: true,
        byte_order: Some("CDAB".into()),
        word_count: Some(1),
        area: None,
    };
    let m = tagconfig_to_fins_mapping(&t).expect("fins mapping");
    assert_eq!(m.tag_id, "t1");
    assert_eq!(m.area, 0x82);
    assert_eq!(m.address, 100);
    assert_eq!(m.byte_order, WordOrder::CDAB);
}

#[test]
fn fins_mapping_explicit_area() {
    let t = TagConfig {
        id: "t2".into(),
        name: "t2".into(),
        address: "50".into(),
        data_type: "UInt16".into(),
        writable: false,
        byte_order: None,
        word_count: Some(1),
        area: Some(0x83),
    };
    let m = tagconfig_to_fins_mapping(&t).expect("fins mapping with explicit area");
    assert_eq!(m.area, 0x83);
    assert_eq!(m.address, 50);
}

#[test]
fn modbus_mapping_parsing() {
    let t = TagConfig {
        id: "m1".into(),
        name: "m1".into(),
        address: "40001".into(),
        data_type: "Float".into(),
        writable: false,
        byte_order: Some("BADC".into()),
        word_count: Some(2),
        area: None,
    };
    let m = tagconfig_to_modbus_mapping(&t).expect("modbus mapping");
    assert_eq!(m.tag_id, "m1");
    assert_eq!(m.address, 0u16);
    assert_eq!(m.quantity, 2);
    assert_eq!(m.byte_order, WordOrder::BADC);
}

fn tag(id: &str, address: &str, data_type: &str, words: Option<u16>) -> TagConfig {
    TagConfig {
        id: id.into(),
        name: id.into(),
        address: address.into(),
        data_type: data_type.into(),
        writable: true,
        byte_order: None,
        word_count: words,
        area: None,
    }
}

fn plc(name: &str, protocol: &str, tags: Vec<TagConfig>) -> PlcConfig {
    PlcConfig {
        name: name.into(),
        protocol: protocol.into(),
        endpoint: "h:1".into(),
        unit_id: None,
        cycle_ms: 100,
        tags,
        max_words_per_request: None,
        keepalive_secs: None,
        max_backoff_secs: None,
        io_timeout_ms: None,
    }
}

fn opcua() -> OpcUaConfig {
    OpcUaConfig {
        bind_addr: "127.0.0.1".into(),
        port: 4840,
        application_name: "app".into(),
        application_uri: "urn:app".into(),
        namespace_uri: "urn:ns".into(),
        anonymous_enabled: true,
        username_password_enabled: false,
        max_sessions: 100,
        max_subscriptions: 1000,
        write_mode: "".into(),
        security_mode: None,
        security_policy: None,
        server_certificate_path: None,
        server_private_key_path: None,
        trust_store_dir: None,
        reject_store_dir: None,
        min_key_length: None,
    }
}

fn runtime(plcs: Vec<PlcConfig>) -> RuntimeConfig {
    RuntimeConfig {
        opcua: opcua(),
        plcs,
        health_channel_capacity: None,
        driver_write_send_timeout_ms: None,
        write_confirm_timeout_ms: None,
    }
}

#[test]
fn type_names_are_taken_in_any_case() {
    for name in ["UINT16", "uint16", "UInt16"] {
        let d = tagconfig_to_definition(&tag("t", "D1", name, None), "P").unwrap();
        assert_eq!(d.data_type, TagDataType::UInt16);
    }
    match tagconfig_to_definition(&tag("t", "D1", "Quux", None), "P") {
        Err(e) => assert_eq!(e.message, "Unsupported data type: quux"),
        Ok(_) => panic!("expected an error"),
    }
}

#[test]
fn definitions_of_all_plcs_are_converted() {
    let plcs = vec![
        plc("p1", "fins", vec![tag("a", "D1", "bool", None), tag("b", "D2", "float", Some(2))]),
        plc("p2", "modbus", vec![tag("c", "40001", "int16", None)]),
    ];
    let defs = convert_definitions(&plcs).unwrap();
    let ids: Vec<(&str, &str)> =
        defs.iter().map(|d| (d.id.as_str(), d.plc_name.as_str())).collect();
    assert_eq!(ids, vec![("a", "p1"), ("b", "p1"), ("c", "p2")]);
    assert_eq!(plc_names(&plcs), vec!["p1".to_string(), "p2".to_string()]);

    let plcs = vec![
        plc("p1", "fins", vec![tag("a", "D1", "bool", None), tag("b", "D2", "what", None)]),
        plc("p2", "modbus", vec![tag("c", "40001", "ever", None)]),
    ];
    let e = convert_definitions(&plcs).unwrap_err();
    assert_eq!(e.context, "Failed to convert tag config for p1::b");
    assert_eq!(e.cause, "Unsupported data type: what");
}

#[test]
fn drivers_are_configured_with_defaults() {
    let mut p = plc("p", "FINS", vec![tag("a", "D10", "uint16", Some(1))]);
    assert_eq!(plc_protocol(&p), Protocol::Fins);
    let c = fins_config(&p, "1.2.3.4:9600").unwrap();
    assert_eq!(
        (c.keepalive_secs, c.max_backoff_secs, c.max_words_per_request),
        (30, 30, 960)
    );
    assert_eq!(c.endpoint, "1.2.3.4:9600");
    assert_eq!(c.mappings[0].address, 10);
    p.max_words_per_request = Some(5);
    p.keepalive_secs = Some(1);
    p.max_backoff_secs = Some(2);
    let c = fins_config(&p, "x").unwrap();
    assert_eq!((c.keepalive_secs, c.max_backoff_secs, c.max_words_per_request), (1, 2, 5));
    p.tags.push(tag("bad", "Dx", "uint16", Some(1)));
    let e = fins_config(&p, "x").unwrap_err();
    assert_eq!(e.context, "FINS mapping error for p::bad");

    let mut p = plc("q", "Modbus", vec![tag("m", "40003", "uint16", Some(1))]);
    assert_eq!(plc_protocol(&p), Protocol::Modbus);
    let c = modbus_config(&p, "e").unwrap();
    assert_eq!((c.unit_id, c.io_timeout_ms, c.keepalive_secs), (1, 2000, 30));
    assert_eq!(c.mappings[0].address, 2);
    p.unit_id = Some(9);
    p.io_timeout_ms = Some(10);
    let c = modbus_config(&p, "e").unwrap();
    assert_eq!((c.unit_id, c.io_timeout_ms), (9, 10));
    p.tags.push(tag("bad", "x", "uint16", None));
    assert_eq!(modbus_config(&p, "e").unwrap_err().context, "Modbus mapping error for q::bad");

    assert_eq!(plc_protocol(&plc("r", "s7", vec![])), Protocol::Unsupported);
}

#[test]
fn server_settings_are_checked() {
    let mut c = opcua();
    let s = opcua_settings(&c).unwrap();
    assert_eq!(s.write_mode, WriteMode::ConfirmedAck);
    assert_eq!(s.security_mode, SecurityMode::NoSecurity);
    assert_eq!(s.certificates.min_key_length, 2048);
    assert!(is_insecure(&s));

    c.write_mode = "Later".into();
    assert_eq!(
        opcua_settings(&c).unwrap_err(),
        "Invalid write_mode 'Later'; must be QueuedAck or ConfirmedAck"
    );
    c.write_mode = "QueuedAck".into();
    c.security_mode = Some("Lock".into());
    assert_eq!(
        opcua_settings(&c).unwrap_err(),
        "Invalid security_mode 'Lock'; must be None, Sign, or SignAndEncrypt"
    );
    c.security_mode = Some("SignAndEncrypt".into());
    c.security_policy = Some("Best".into());
    assert_eq!(
        opcua_settings(&c).unwrap_err(),
        "Invalid security_policy 'Best'; must be None, Basic128Rsa15, Basic256, or Basic256Sha256"
    );
    c.security_policy = Some("Basic256".into());
    assert_eq!(
        opcua_settings(&c).unwrap_err(),
        "Security mode SignAndEncrypt requires server_certificate_path and server_private_key_path to be set"
    );
    c.server_certificate_path = Some("c".into());
    c.server_private_key_path = Some("k".into());
    c.min_key_length = Some(4096);
    let s = opcua_settings(&c).unwrap();
    assert_eq!(s.security_policy, SecurityPolicy::Basic256);
    assert_eq!(s.certificates.server_certificate_path, Some("c".to_string()));
    assert_eq!(s.certificates.min_key_length, 4096);
    assert!(!is_insecure(&s));
    c.port = 0;
    assert_eq!(
        opcua_settings(&c).unwrap_err(),
        "OPC UA configuration is invalid: invalid port: 0"
    );
    c.port = 1;
    c.bind_addr = "somewhere".into();
    assert!(opcua_settings(&c).is_ok());
    c.bind_addr = "no where".into();
    assert_eq!(
        opcua_settings(&c).unwrap_err(),
        "OPC UA configuration is invalid: invalid bind address `no where:1`: invalid socket address syntax"
    );
}

#[test]
fn limits_have_defaults() {
    let mut c = runtime(vec![]);
    let l = runtime_limits(&c);
    assert_eq!(
        (l.health_channel_capacity, l.driver_write_send_timeout_ms, l.write_confirm_timeout_ms),
        (128, 2000, 5000)
    );
    c.health_channel_capacity = Some(1);
    c.driver_write_send_timeout_ms = Some(2);
    c.write_confirm_timeout_ms = Some(3);
    let l = runtime_limits(&c);
    assert_eq!(
        (l.health_channel_capacity, l.driver_write_send_timeout_ms, l.write_confirm_timeout_ms),
        (1, 2, 3)
    );
}

#[test]
fn configurations_are_parsed_by_format() {
    assert_eq!(config_format(Some("TOML")), ConfigFormat::Toml);
    assert_eq!(config_format(Some("yml")), ConfigFormat::Yaml);
    assert_eq!(config_format(Some("Yaml")), ConfigFormat::Yaml);
    assert_eq!(config_format(Some("json")), ConfigFormat::Unknown);
    assert_eq!(config_format(None), ConfigFormat::Unknown);

    match after_first_parse(ConfigFormat::Toml, Err("e".into())) {
        ParseStep::Done(Err(m)) => assert_eq!(m, "TOML parse error: e"),
        other => panic!("unexpected {:?}", other),
    }
    match after_first_parse(ConfigFormat::Yaml, Err("e".into())) {
        ParseStep::Done(Err(m)) => assert_eq!(m, "YAML parse error: e"),
        other => panic!("unexpected {:?}", other),
    }
    assert!(matches!(
        after_first_parse(ConfigFormat::Unknown, Err("e".into())),
        ParseStep::TryYaml(_)
    ));
    match after_second_parse("t", Err("y".into())) {
        Err(m) => assert_eq!(m, "Config parse failed: TOML error: t; YAML error: y"),
        Ok(_) => panic!("expected an error"),
    }
    let mut p = plc("fast", "fins", vec![]);
    p.cycle_ms = 9;
    match after_second_parse("t", Ok(runtime(vec![plc("ok", "fins", vec![]), p]))) {
        Err(m) => assert_eq!(m, "Invalid cycle_ms for fast: 9 (must be >= 10)"),
        Ok(_) => panic!("expected an error"),
    }
    assert!(after_second_parse("t", Ok(runtime(vec![plc("ok", "fins", vec![])]))).is_ok());
}

fn handler() -> (TagRegistry, RuntimeWriteHandler) {
    let mut defs = vec![
        TagDefinition::new("w", "W", "1", TagDataType::UInt16, "P"),
        TagDefinition::new("r", "R", "1", TagDataType::UInt16, "P"),
        TagDefinition::new("lost", "L", "1", TagDataType::UInt16, "P"),
    ];
    defs[0].writable = true;
    defs[2].writable = true;
    let registry = TagRegistry::from_definitions(&defs).unwrap();
    let mut h = RuntimeWriteHandler::new(5000).with_driver_send_timeout(7);
    h.add_route_for_fins("w".into(), 3);
    h.add_route_for_modbus("r".into(), 4);
    (registry, h)
}

fn refusal(h: &RuntimeWriteHandler, registry: &TagRegistry, req: WriteRequest) -> String {
    match h.route_for(registry, &req) {
        Err(ServerError::Other(m)) => m,
        other => panic!("unexpected {:?}", other),
    }
}

#[test]
fn writes_are_routed_or_refused() {
    let (registry, h) = handler();
    assert_eq!(h.confirm_timeout_ms(), 5000);
    assert_eq!(h.driver_send_timeout_ms(), 7);
    assert_eq!(
        h.route_for(&registry, &WriteRequest::new("w", TagValue::UInt16(1))).unwrap(),
        Route::Fins(3)
    );
    assert_eq!(
        refusal(&h, &registry, WriteRequest::new("x", TagValue::UInt16(1))),
        "Runtime tag not found x: Tag not found: x"
    );
    assert_eq!(
        refusal(&h, &registry, WriteRequest::new("w", TagValue::Int16(1))),
        "Type mismatch for tag w"
    );
    assert_eq!(
        refusal(&h, &registry, WriteRequest::new("r", TagValue::UInt16(1))),
        "Tag r is not writable"
    );
    assert_eq!(
        refusal(&h, &registry, WriteRequest::new("lost", TagValue::UInt16(1))),
        "No driver route for tag lost"
    );
    let r = driver_request(WriteRequest::new("w", TagValue::UInt16(1)), ReplyId { number: 8 });
    assert_eq!(r.tag_id, "w");
    assert_eq!(r.reply, Some(ReplyId { number: 8 }));
}

#[test]
fn all_tags_of_a_plc_are_routed() {
    let (registry, mut h) = handler();
    h.add_routes(&vec![tag("lost", "D1", "uint16", None)], Route::Modbus(6));
    assert_eq!(
        h.route_for(&registry, &WriteRequest::new("lost", TagValue::UInt16(1))).unwrap(),
        Route::Modbus(6)
    );
    assert_eq!(
        h.route_for(&registry, &WriteRequest::new("w", TagValue::UInt16(1))).unwrap(),
        Route::Fins(3)
    );
}

fn other(r: Result<(), ServerError>) -> String {
    match r {
        Err(ServerError::Other(m)) => m,
        other => panic!("unexpected {:?}", other),
    }
}

#[test]
fn handing_over_and_confirming_writes() {
    assert!(enqueue_result(&Route::Fins(0), Enqueued::Done).is_ok());
    assert_eq!(
        other(enqueue_result(&Route::Fins(0), Enqueued::Closed("channel closed".into()))),
        "Failed to enqueue FINS write: channel closed"
    );
    assert_eq!(
        other(enqueue_result(&Route::Modbus(0), Enqueued::TimedOut)),
        "Timed out enqueuing Modbus write"
    );
    assert!(confirm_result(Confirmation::Replied(Ok(()))).is_ok());
    assert_eq!(
        other(confirm_result(Confirmation::Replied(Err("x".into())))),
        "Driver reported write failure: x"
    );
    assert_eq!(
        other(confirm_result(Confirmation::Closed)),
        "Write confirmation channel closed"
    );
    assert_eq!(other(confirm_result(Confirmation::TimedOut)), "Write confirmation timed out");
}

#[test]
fn runtime_driver_start_stop() {
    let mut rd = RuntimeDriver::new("test-plc", 10);
    for _ in 0..50 {
        let wait = rd.start().expect("started");
        assert!(wait < 10);
        assert!(rd.start().is_none());
        assert_eq!(rd.poll(PollEvent::Ticked).action, PollAction::RunCycle);
        let step = rd.poll(PollEvent::CycleEnded(Ok(())));
        assert!(step.after_success);
        assert_eq!(step.action, PollAction::AwaitTick);
        assert_eq!(rd.poll(PollEvent::ShutdownRequested).action, PollAction::Exit);
        assert!(rd.stop());
        assert!(!rd.stop());
    }
    assert_eq!(RuntimeDriver::new("x", 0).start(), Some(0));
    assert_eq!(RuntimeDriver::new("x", 1).start(), Some(0));
}

#[test]
fn waits_double_up_to_the_longest() {
    let mut rd = RuntimeDriver::new("p", 10);
    let mut waits = Vec::new();
    for _ in 0..7 {
        let step = rd.poll(PollEvent::CycleEnded(Err("down".into())));
        let health = step.health.unwrap();
        assert_eq!(health.status, "error");
        assert_eq!(health.message, "down");
        assert_eq!(health.plc, "p");
        match rd.poll(PollEvent::Ticked).action {
            PollAction::Wait(s) => waits.push(s),
            other => panic!("unexpected {:?}", other),
        }
        assert_eq!(rd.poll(PollEvent::Waited).action, PollAction::RunCycle);
    }
    assert_eq!(waits, vec![1, 2, 4, 8, 16, 30, 30]);
    rd.poll(PollEvent::CycleEnded(Ok(())));
    assert_eq!(rd.poll(PollEvent::Ticked).action, PollAction::RunCycle);
    assert_eq!(next_backoff(u64::MAX, u64::MAX), u64::MAX);
    assert_eq!(next_backoff(3, 5), 5);
}

#[test]
fn overdue_tags_become_stale() {
    let mut defs = vec![
        TagDefinition::new("a", "A", "1", TagDataType::UInt16, "P"),
        TagDefinition::new("b", "B", "1", TagDataType::UInt16, "P"),
        TagDefinition::new("c", "C", "1", TagDataType::UInt16, "Q"),
        TagDefinition::new("d", "D", "1", TagDataType::UInt16, "P"),
    ];
    defs[0].stale_after_ms = Some(1000);
    defs[1].stale_after_ms = Some(100_000_000);
    defs[2].stale_after_ms = Some(1000);
    let mut registry = TagRegistry::from_definitions(&defs).unwrap();
    let old = Timestamp::from_nanos(Timestamp::now().nanos_opt().unwrap() - 10_000_000_000);
    for id in ["a", "b", "c", "d"] {
        registry.update_tag_value(id, TagValue::UInt16(5), TagQuality::Good, old).unwrap();
    }
    check_stale_tags("P", &mut registry);
    let quality = |id: &str| registry.get_tag(id).unwrap().quality.clone();
    assert_eq!(quality("a"), TagQuality::Stale);
    assert_eq!(quality("b"), TagQuality::Good);
    assert_eq!(quality("c"), TagQuality::Good);
    assert_eq!(quality("d"), TagQuality::Good);
    assert_eq!(registry.get_tag("a").unwrap().value, TagValue::UInt16(5));
}

#[test]
fn health_events_are_json_objects() {
    let data = serde_json::from_str::<serde_json::Value>("{\"uptime\":42}").unwrap();
    let rd = RuntimeDriver::new("p", 1);
    assert!(rd.health_after_success(None).is_none());
    let event = rd.health_after_success(Some(data)).unwrap().to_json();
    assert_eq!(
        event,
        serde_json::from_str::<serde_json::Value>(
            "{\"plc\":\"p\",\"status\":\"ok\",\"detail\":{\"message\":\"ok\",\"data\":{\"uptime\":42}}}"
        )
        .unwrap()
    );
    let event = HealthEvent {
        plc: "q".into(),
        status: "error".into(),
        message: "m".into(),
        data: None,
    }
    .to_json();
    assert_eq!(
        event,
        serde_json::from_str::<serde_json::Value>(
            "{\"plc\":\"q\",\"status\":\"error\",\"detail\":{\"message\":\"m\",\"data\":null}}"
        )
        .unwrap()
    );
}

#[test]
fn the_board_keeps_events_of_known_plcs() {
    let event = |plc: &str, message: &str| {
        HealthEvent {
            plc: plc.into(),
            status: "error".into(),
            message: message.into(),
            data: None,
        }
        .to_json()
    };
    let mut board = HealthBoard::new(vec!["p".into(), "q".into()]);
    assert!(board.latest("p").is_none());
    board.record(event("p", "one"));
    board.record(event("p", "two"));
    board.record(event("stranger", "three"));
    board.record(serde_json::Value::Null);
    board.record(serde_json::from_str("{\"plc\":5}").unwrap());
    assert_eq!(board.latest("p"), Some(event("p", "two")));
    assert!(board.latest("q").is_none());
    assert!(board.latest("stranger").is_none());
}

#[test]
fn long_thresholds_do_not_make_tags_stale() {
    let mut defs = vec![
        TagDefinition::new("a", "A", "1", TagDataType::UInt16, "P"),
        TagDefinition::new("b", "B", "1", TagDataType::UInt16, "P"),
        TagDefinition::new("c", "C", "1", TagDataType::UInt16, "P"),
    ];
    defs[0].stale_after_ms = Some(1 << 63);
    defs[1].stale_after_ms = Some(u64::MAX);
    defs[2].stale_after_ms = Some(9_999);
    let mut registry = TagRegistry::from_definitions(&defs).unwrap();
    let old = Timestamp::from_nanos(Timestamp::now().nanos_opt().unwrap() - 10_000_000_000);
    for id in ["a", "b", "c"] {
        registry.update_tag_value(id, TagValue::UInt16(5), TagQuality::Good, old).unwrap();
    }
    check_stale_tags("P", &mut registry);
    let quality = |id: &str| registry.get_tag(id).unwrap().quality.clone();
    assert_eq!(quality("a"), TagQuality::Good);
    assert_eq!(quality("b"), TagQuality::Good);
    assert_eq!(quality("c"), TagQuality::Stale);
}

#[test]
fn fins_address_forms_give_one_mapping() {
    for n in [0u32, 7, 100, u32::MAX] {
        for address in [
            format!("{}", n),
            format!("D{}", n),
            format!("d{}", n),
            format!(" \t{}\n", n),
            format!("  d{} ", n),
            format!("D00{}", n),
        ] {
            let m = tagconfig_to_fins_mapping(&tag("t", &address, "uint32", Some(2))).unwrap();
            assert_eq!((m.area, m.address, m.word_count), (0x82, n, 2));
        }
        let mut t = tag("t", &format!(" {} ", n), "uint16", None);
        t.area = Some(0x31);
        let m = tagconfig_to_fins_mapping(&t).unwrap();
        assert_eq!((m.area, m.address), (0x31, n));
        t.address = format!("D{}", n);
        assert!(tagconfig_to_fins_mapping(&t).is_err());
    }
    for address in ["", " ", "D", "d ", "E5", "D 5", "+5", "D+5", "-1", "5D", "4294967296", "1.5"] {
        assert!(tagconfig_to_fins_mapping(&tag("t", address, "uint16", None)).is_err());
    }
}

#[test]
fn modbus_address_forms_give_one_mapping() {
    for n in [0u32, 1, 99, 25535, 40000] {
        for data_type in ["bool", "float"] {
            let offset = tag("t", &n.to_string(), data_type, Some(2));
            let notation = tag("t", &(40001 + n).to_string(), data_type, Some(2));
            let a = tagconfig_to_modbus_mapping(&offset).unwrap();
            let b = tagconfig_to_modbus_mapping(&notation).unwrap();
            assert_eq!(a.address as u32, n);
            assert_eq!(a.quantity, 2);
            assert_eq!(a.function.name(), if data_type == "bool" { "Coils" } else { "HoldingRegisters" });
            assert_eq!(format!("{:?}", a), format!("{:?}", b));
        }
    }
}
