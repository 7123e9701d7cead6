use opcua_plc_bridge::core_model::{
    Float32, Float64, TagDataType, TagDefinition, TagQuality, TagRegistry, TagValue, WordOrder,
};
use opcua_plc_bridge::driver_common::write_request::{Reply, ReplyId, WriteRequest};
use opcua_plc_bridge::driver_fins::codec::{decode_value, tagvalue_to_words_standard};
use opcua_plc_bridge::driver_fins::config::{
    default_keepalive_secs, default_max_backoff_secs, default_max_fins_words,
};
use opcua_plc_bridge::driver_fins::driver::{can_frame, next_sid, Action, Event};
use opcua_plc_bridge::driver_fins::frame::{
    build_fins_frame, build_memory_read, build_memory_write, parse_fins_response, response_length,
    wrap_fins_tcp,
};
use opcua_plc_bridge::driver_fins::read::{can_plan, plan_reads};
use opcua_plc_bridge::driver_fins::{DriverError, FinsConfig, FinsDriver, TagMapping};
use opcua_plc_bridge::driver_common::health::HealthEvent;
use opcua_plc_bridge::time::Timestamp;
use std::collections::{HashMap, VecDeque};

/// A PLC in memory: words that were not set are zero.
struct Plc {
    reachable: bool,
    words: HashMap<(u8, u32), u16>,
    frames: Vec<Vec<u8>>,
    /// Replaces the answer to a frame.
    answer: Option<fn(&[u8]) -> Result<Vec<u8>, String>>,
    connects: usize,
}

fn response(sid: u8, end_code: u16, data: &[u8]) -> Vec<u8> {
    let mut r = vec![0xC0, 0, 2, 0, 0, 0, 0, 0, 0, sid, 1, 1];
    r.extend_from_slice(&end_code.to_be_bytes());
    r.extend_from_slice(data);
    r
}

impl Plc {
    fn new() -> Plc {
        Plc {
            reachable: true,
            words: HashMap::new(),
            frames: Vec::new(),
            answer: None,
            connects: 0,
        }
    }

    fn exchange(&mut self, frame: &[u8]) -> Result<Vec<u8>, String> {
        self.frames.push(frame.to_vec());
        assert_eq!(&frame[0..4], b"FINS");
        let mut header = [0u8; 8];
        header.copy_from_slice(&frame[0..8]);
        assert_eq!(response_length(&header) as usize, frame.len() - 8);
        let payload = &frame[8..];
        if let Some(f) = self.answer {
            return f(payload);
        }
        let sid = payload[9];
        let area = payload[12];
        let address = u32::from_be_bytes([0, payload[13], payload[14], payload[15]]);
        let count = u16::from_be_bytes([payload[17], payload[18]]);
        if payload[11] == 2 {
            for i in 0..count as usize {
                let at = 19 + 2 * i;
                let w = u16::from_be_bytes([payload[at], payload[at + 1]]);
                self.words.insert((area, address + i as u32), w);
            }
            Ok(response(sid, 0, &[]))
        } else {
            let mut data = Vec::new();
            for i in 0..count as u32 {
                let w = self.words.get(&(area, address + i)).copied().unwrap_or(0);
                data.extend_from_slice(&w.to_be_bytes());
            }
            Ok(response(sid, 0, &data))
        }
    }
}

struct Outcome {
    result: Result<(), DriverError>,
    replies: Vec<Reply>,
    health: Vec<HealthEvent>,
}

fn cycle(
    driver: &mut FinsDriver,
    registry: &mut TagRegistry,
    plc: &mut Plc,
    queue: &mut VecDeque<WriteRequest>,
) -> Outcome {
    let mut replies = Vec::new();
    let mut health = Vec::new();
    let mut event = Event::Start;
    loop {
        let step = driver.step(registry, event);
        replies.extend(step.reply);
        health.extend(step.health);
        event = match step.action {
            Action::PollQueue => Event::Queue(queue.pop_front()),
            Action::Connect => {
                plc.connects += 1;
                if plc.reachable {
                    Event::Connected
                } else {
                    Event::ConnectFailed(DriverError::Timeout)
                }
            }
            Action::Exchange(frame) => Event::Answer(plc.exchange(&frame)),
            Action::Finish(result) => return Outcome { result, replies, health },
        };
    }
}

fn mapping(id: &str, address: u32, words: u16, writable: bool, t: TagDataType) -> TagMapping {
    TagMapping::new(id, 0x82, address, 0, words, writable, WordOrder::ABCD, t)
}

fn make_registry(defs: &[(&str, TagDataType)]) -> TagRegistry {
    let defs: Vec<_> = defs
        .iter()
        .map(|(id, dt)| TagDefinition::new(id, id, "ignored", *dt, "plc"))
        .collect();
    TagRegistry::from_definitions(&defs).expect("valid defs")
}

fn make_driver(mappings: Vec<TagMapping>) -> FinsDriver {
    let config = FinsConfig::new("plc", "127.0.0.1:9600", 100, mappings);
    assert!(can_plan(&config.mappings, config.max_words_per_request));
    let driver = FinsDriver::new(config);
    assert!(driver.validate().is_ok());
    driver
}

#[test]
fn default_values_are_set() {
    let cfg = FinsConfig {
        name: "plc-x".into(),
        endpoint: "127.0.0.1:9600".into(),
        cycle_ms: 100,
        keepalive_secs: default_keepalive_secs(),
        max_backoff_secs: default_max_backoff_secs(),
        mappings: vec![],
        max_words_per_request: default_max_fins_words(),
    };
    assert_eq!(cfg.keepalive_secs, 30);
    assert_eq!(cfg.max_backoff_secs, 30);
    assert_eq!(cfg.max_words_per_request, 960);
}

#[test]
fn config_create_with_new_and_mapping() {
    let mapping = TagMapping::new(
        "PLC::Tag",
        0x82,
        100,
        0,
        1,
        true,
        WordOrder::ABCD,
        TagDataType::UInt16,
    );
    let cfg = FinsConfig::new("plc-1", "10.0.0.1:9600", 200, vec![mapping]);
    assert_eq!(cfg.name, "plc-1");
    assert_eq!(cfg.cycle_ms, 200);
    assert_eq!(cfg.mappings.len(), 1);
}

#[test]
fn build_and_wrap_frame() {
    let payload = vec![1, 2, 3];
    let wrapped = wrap_fins_tcp(&payload);
    assert!(wrapped.starts_with(b"FINS"));
    assert_eq!(wrapped, vec![0x46, 0x49, 0x4E, 0x53, 0, 0, 0, 3, 1, 2, 3]);
}

#[test]
fn write_request_queue() {
    let mut registry = make_registry(&[]);
    let mut drv = make_driver(vec![]);
    let mut queue = VecDeque::new();
    queue.push_back(WriteRequest::new("a", TagValue::UInt16(1)));
    let mut plc = Plc::new();
    let o = cycle(&mut drv, &mut registry, &mut plc, &mut queue);
    assert!(o.result.is_ok());
    assert!(queue.is_empty());
    assert!(plc.frames.is_empty());
}

#[test]
fn validate_and_split_read_groups() {
    let cfg = FinsConfig {
        name: "t2".into(),
        endpoint: "127.0.0.1:9600".into(),
        cycle_ms: 100,
        keepalive_secs: 30,
        max_backoff_secs: 30,
        mappings: vec![mapping("t1", 100, 2, true, TagDataType::UInt16)],
        max_words_per_request: 960,
    };
    let plan = plan_reads(&cfg.mappings, 960);
    assert_eq!(plan.len(), 1);
    assert_eq!((plan[0].class, plan[0].start, plan[0].len), (0x82, 100, 2));
    let drv = FinsDriver::new(cfg);
    assert!(drv.validate().is_ok());
}

#[test]
fn frames_have_their_layout() {
    assert_eq!(
        build_fins_frame(7, [1, 2], &[9, 8]),
        vec![0x80, 0, 2, 0, 0, 0, 0, 0, 0, 7, 1, 2, 9, 8]
    );
    assert_eq!(
        build_memory_read(0x82, 0x123456, 3, 0x0102),
        vec![0x82, 0x12, 0x34, 0x56, 3, 1, 2]
    );
    assert_eq!(
        build_memory_write(0x82, 100, 0, &[0xABCD, 0x0001]),
        vec![0x82, 0, 0, 100, 0, 0, 2, 0xAB, 0xCD, 0, 1]
    );
}

#[test]
fn responses_are_parsed() {
    match parse_fins_response(&[0; 13]) {
        Err(DriverError::Protocol(m)) => assert_eq!(m, "Frame too short"),
        other => panic!("unexpected {:?}", other),
    }
    let (sid, end_code, data) = parse_fins_response(&response(5, 0x1102, &[1, 2])).unwrap();
    assert_eq!((sid, end_code, data), (5, 0x1102, vec![1, 2]));
    assert_eq!(response_length(&[0, 0, 0, 0, 0, 1, 2, 3]), 0x010203);
}

#[test]
fn service_ids_wrap() {
    assert_eq!(next_sid(1), 2);
    assert_eq!(next_sid(255), 0);
}

#[test]
fn a_cycle_reads_its_tags() {
    let mut plc = Plc::new();
    plc.words.insert((0x82, 100), 0xABCD);
    plc.words.insert((0x82, 101), 0x4048);
    plc.words.insert((0x82, 102), 0xF5C3);
    plc.words.insert((0xB0, 5), 0x0004);
    let mut registry = make_registry(&[
        ("a", TagDataType::UInt16),
        ("f", TagDataType::Float),
        ("b", TagDataType::Bool),
    ]);
    let mut driver = make_driver(vec![
        mapping("a", 100, 1, false, TagDataType::UInt16),
        mapping("f", 101, 2, false, TagDataType::Float),
        TagMapping::new("b", 0xB0, 5, 2, 1, false, WordOrder::ABCD, TagDataType::Bool),
    ]);
    let o = cycle(&mut driver, &mut registry, &mut plc, &mut VecDeque::new());
    assert!(o.result.is_ok());
    assert_eq!(registry.get_tag("a").unwrap().value, TagValue::UInt16(0xABCD));
    assert_eq!(
        registry.get_tag("f").unwrap().value,
        TagValue::Float(Float32::from_bits(0x4048F5C3))
    );
    assert_eq!(registry.get_tag("b").unwrap().value, TagValue::Bool(true));
    assert_eq!(registry.get_tag("b").unwrap().quality, TagQuality::Good);
    // One request for each area, with service ids from 1 on.
    assert_eq!(plc.frames.len(), 2);
    assert_eq!(plc.frames[0][17], 1);
    assert_eq!(plc.frames[1][17], 2);
    assert_eq!(plc.frames[0][20..27], [0x82, 0, 0, 100, 0, 0, 3]);
    assert_eq!(plc.connects, 1);
}

#[test]
fn a_write_is_read_back_in_every_order() {
    for order in [WordOrder::ABCD, WordOrder::BADC, WordOrder::CDAB, WordOrder::DCBA] {
        let m = TagMapping::new("v", 0x82, 7, 0, 4, true, order, TagDataType::Double);
        let value = TagValue::Double(Float64::from_bits(0x0123_4567_89AB_CDEF));
        let mut registry = make_registry(&[("v", TagDataType::Double)]);
        let mut driver = make_driver(vec![m]);
        let mut plc = Plc::new();
        let mut queue = VecDeque::new();
        let id = ReplyId { number: 3 };
        queue.push_back(WriteRequest::new("v", value.clone()).with_reply(id));
        let o = cycle(&mut driver, &mut registry, &mut plc, &mut queue);
        assert!(o.result.is_ok());
        assert_eq!(o.replies.len(), 1);
        assert_eq!(o.replies[0].to, id);
        assert!(o.replies[0].result.is_ok());
        assert_eq!(registry.get_tag("v").unwrap().value, value);
        assert_eq!(plc.frames.len(), 2);
    }
}

fn write_with(answer: fn(&[u8]) -> Result<Vec<u8>, String>) -> (Outcome, TagQuality, Plc) {
    let mut registry = make_registry(&[("w", TagDataType::UInt16)]);
    let mut driver = make_driver(vec![mapping("w", 0, 1, true, TagDataType::UInt16)]);
    let mut plc = Plc::new();
    plc.answer = Some(answer);
    let mut queue = VecDeque::new();
    queue.push_back(
        WriteRequest::new("w", TagValue::UInt16(3)).with_reply(ReplyId { number: 4 }),
    );
    let o = cycle(&mut driver, &mut registry, &mut plc, &mut queue);
    let q = registry.get_tag("w").unwrap().quality.clone();
    (o, q, plc)
}

fn message(o: &Outcome) -> String {
    o.replies[0].result.clone().unwrap_err()
}

#[test]
fn write_failures_are_answered() {
    let (o, q, plc) = write_with(|_| Err("broken pipe".into()));
    assert!(o.result.is_ok());
    assert_eq!(message(&o), "IO error: broken pipe");
    assert_eq!(q, TagQuality::CommLost);
    assert_eq!(plc.connects, 2);

    let (o, q, _) = write_with(|_| Ok(vec![1, 2, 3]));
    assert_eq!(message(&o), "Parse error: Protocol error: Frame too short");
    assert_eq!(
        q,
        TagQuality::Error("parse_fins_resp: Protocol error: Frame too short".into())
    );

    let (o, q, _) = write_with(|p| Ok(response(p[9].wrapping_add(1), 0, &[])));
    assert_eq!(message(&o), "SID mismatch");
    assert_eq!(q, TagQuality::CommLost);

    let (o, q, plc) = write_with(|p| Ok(response(p[9], 0x1103, &[])));
    assert_eq!(message(&o), "FINS end code: 0x1103");
    assert_eq!(q, TagQuality::Error("FINS end code: 0x1103".into()));
    assert_eq!(plc.connects, 1);
}

#[test]
fn refused_writes_are_answered() {
    let mut registry = make_registry(&[("r", TagDataType::UInt16)]);
    let mut driver = make_driver(vec![mapping("r", 0, 1, false, TagDataType::UInt16)]);
    let mut plc = Plc::new();
    let mut queue = VecDeque::new();
    queue.push_back(WriteRequest::new("r", TagValue::UInt16(3)).with_reply(ReplyId { number: 1 }));
    queue.push_back(WriteRequest::new("x", TagValue::UInt16(3)).with_reply(ReplyId { number: 2 }));
    let o = cycle(&mut driver, &mut registry, &mut plc, &mut queue);
    assert_eq!(o.replies[0].result, Err("Not writable".to_string()));
    assert_eq!(o.replies[0].to, ReplyId { number: 1 });
    assert_eq!(o.replies[1].result, Err("Unknown tag id".to_string()));
    assert_eq!(o.replies[1].to, ReplyId { number: 2 });
    assert_eq!(plc.frames.len(), 1);
    assert!(plc.words.is_empty());
}

#[test]
fn reconnect_failures_are_reported() {
    let mut registry = make_registry(&[("w", TagDataType::UInt16)]);
    let mut driver = make_driver(vec![mapping("w", 0, 1, true, TagDataType::UInt16)]);
    let mut plc = Plc::new();
    plc.reachable = false;
    let o = cycle(&mut driver, &mut registry, &mut plc, &mut VecDeque::new());
    assert!(matches!(o.result, Err(DriverError::Timeout)));
    assert!(o.health.is_empty());

    // The connection is lost in the middle of a cycle, first by a write, then by a read.
    let step = driver.step(&mut registry, Event::Start);
    assert!(matches!(step.action, Action::Connect));
    let step = driver.step(&mut registry, Event::Connected);
    assert!(matches!(step.action, Action::PollQueue));
    let req = WriteRequest::new("w", TagValue::UInt16(3)).with_reply(ReplyId { number: 4 });
    let step = driver.step(&mut registry, Event::Queue(Some(req)));
    assert!(matches!(step.action, Action::Exchange(_)));
    let step = driver.step(&mut registry, Event::Answer(Err("reset".into())));
    assert!(step.disconnect);
    assert!(matches!(step.action, Action::PollQueue));
    let req = WriteRequest::new("w", TagValue::UInt16(4)).with_reply(ReplyId { number: 5 });
    let step = driver.step(&mut registry, Event::Queue(Some(req)));
    assert!(matches!(step.action, Action::Connect));
    let step = driver.step(&mut registry, Event::ConnectFailed(DriverError::Timeout));
    assert_eq!(step.reply.unwrap().result, Err("Reconnect failed: Timeout".to_string()));
    let health = step.health.unwrap();
    assert_eq!(health.plc, "plc");
    assert_eq!(health.status, "connect_failed");
    assert_eq!(health.message, "Timeout");
    let step = driver.step(&mut registry, Event::Queue(None));
    assert!(matches!(step.action, Action::Connect));
    let step = driver.step(&mut registry, Event::ConnectFailed(DriverError::Timeout));
    assert_eq!(step.health.unwrap().status, "connect_failed");
    assert!(matches!(step.action, Action::Finish(Ok(()))));
    assert_eq!(registry.get_tag("w").unwrap().quality, TagQuality::CommLost);
}

fn read_with(answer: fn(&[u8]) -> Result<Vec<u8>, String>) -> (Outcome, TagQuality) {
    let mut registry = make_registry(&[("r", TagDataType::UInt32)]);
    let mut driver = make_driver(vec![mapping("r", 0, 2, false, TagDataType::UInt32)]);
    let mut plc = Plc::new();
    plc.answer = Some(answer);
    let o = cycle(&mut driver, &mut registry, &mut plc, &mut VecDeque::new());
    let q = registry.get_tag("r").unwrap().quality.clone();
    (o, q)
}

#[test]
fn read_failures_mark_the_tags() {
    let (o, q) = read_with(|_| Err("gone".into()));
    assert!(o.result.is_ok());
    assert_eq!(q, TagQuality::CommLost);
    let (_, q) = read_with(|p| Ok(response(p[9], 0, &[1, 2])));
    assert_eq!(q, TagQuality::Error("short_payload".into()));
    let (_, q) = read_with(|p| Ok(response(p[9], 0x00FF, &[])));
    assert_eq!(q, TagQuality::Error("FINS end code: 0x00FF".into()));
    let (_, q) = read_with(|p| Ok(response(p[9].wrapping_sub(1), 0, &[0, 0, 0, 0])));
    assert_eq!(q, TagQuality::CommLost);
    let (_, q) = read_with(|_| Ok(vec![]));
    assert_eq!(
        q,
        TagQuality::Error("parse_fins_resp: Protocol error: Frame too short".into())
    );
}

#[test]
fn values_that_are_cut_off_fail_to_decode() {
    // The tag spans two requests, so each of them holds a part of it only.
    let mut config = FinsConfig::new(
        "plc",
        "e",
        100,
        vec![mapping("d", 0, 2, false, TagDataType::UInt32)],
    );
    config.max_words_per_request = 1;
    let mut driver = FinsDriver::new(config);
    let mut registry = make_registry(&[("d", TagDataType::UInt32)]);
    let mut plc = Plc::new();
    let o = cycle(&mut driver, &mut registry, &mut plc, &mut VecDeque::new());
    assert!(o.result.is_ok());
    assert_eq!(plc.frames.len(), 2);
    assert_eq!(
        registry.get_tag("d").unwrap().quality,
        TagQuality::Error("decode_failed: Protocol error: Not enough data for UInt32".into())
    );
}

fn fault_of(m: TagMapping) -> String {
    let driver = FinsDriver::new(FinsConfig::new("t", "e", 100, vec![m]));
    match driver.validate() {
        Err(DriverError::Mapping(s)) => s,
        other => panic!("unexpected {:?}", other),
    }
}

#[test]
fn each_fault_of_a_mapping_is_named() {
    let abcd = WordOrder::ABCD;
    assert_eq!(
        fault_of(mapping("m", 5, 0, false, TagDataType::UInt16)),
        "Mapping 'm' has zero word_count"
    );
    assert_eq!(
        fault_of(TagMapping::new("m", 1, 0, 16, 1, false, abcd, TagDataType::Bool)),
        "Mapping 'm' has invalid bit_offset 16 (must be 0..15)"
    );
    assert_eq!(
        fault_of(mapping("m", 0, 1, false, TagDataType::Int32)),
        "Mapping 'm' data_type requires word_count >= 2"
    );
    assert_eq!(
        fault_of(mapping("m", 0, 2, false, TagDataType::Double)),
        "Mapping 'm' data_type 'Double' requires word_count >= 4"
    );
    assert_eq!(
        fault_of(TagMapping::new(
            "m",
            1,
            0,
            0,
            1,
            false,
            WordOrder::CDAB,
            TagDataType::UInt16
        )),
        "Mapping 'm' uses byte_order CDAB which requires word_count >= 2"
    );
}

#[test]
fn overlaps_are_named_by_area() {
    let config = FinsConfig::new(
        "t",
        "e",
        100,
        vec![
            mapping("a", 10, 2, false, TagDataType::UInt16),
            mapping("b", 11, 3, false, TagDataType::UInt16),
            TagMapping::new(
                "c",
                0x31,
                11,
                0,
                1,
                false,
                WordOrder::ABCD,
                TagDataType::UInt16,
            ),
        ],
    );
    match FinsDriver::new(config).validate() {
        Err(DriverError::Mapping(m)) => assert_eq!(
            m,
            "Overlapping FINS ranges for area 0x82: 'a'[10..11] overlaps 'b'[11..13]"
        ),
        other => panic!("unexpected {:?}", other),
    }
}

#[test]
fn groups_are_split_by_the_maximum() {
    let ms = vec![
        mapping("a", 0, 5, false, TagDataType::ByteString),
        mapping("b", 5, 5, false, TagDataType::ByteString),
        mapping("c", 20, 1, false, TagDataType::UInt16),
    ];
    let plan = plan_reads(&ms, 4);
    let shape: Vec<(u32, u16)> = plan.iter().map(|c| (c.start, c.len)).collect();
    assert_eq!(shape, vec![(0, 4), (4, 4), (8, 2), (20, 1)]);
    assert_eq!(plan[0].members, vec![0, 1]);
    assert_eq!(plan[3].members, vec![2]);
    assert!(!can_plan(&ms, 0));
    assert!(can_plan(&vec![], 0));
    assert!(can_plan(&ms, 0x1_0000));
}

#[test]
fn counts_of_requests_have_sixteen_bits() {
    // 70000 words at most, of which a count of 16 bits tells 4464.
    let ms: Vec<TagMapping> = (0..2)
        .map(|i| mapping(&format!("t{}", i), i * 60000, 60000, false, TagDataType::ByteString))
        .collect();
    assert!(!can_plan(&ms, 65536));
    if can_plan(&ms, 70000) {
        assert_eq!(plan_reads(&ms, 70000)[0].len, 4464);
    }
}

fn bad(t: TagDataType, b: &[u8]) -> String {
    match decode_value(t, b, 0) {
        Err(DriverError::Protocol(m)) => m,
        other => panic!("unexpected {:?}", other),
    }
}

#[test]
fn decoding_needs_enough_bytes() {
    assert_eq!(bad(TagDataType::Bool, &[1]), "Not enough data for Bool");
    assert_eq!(bad(TagDataType::UInt16, &[1]), "Not enough data for UInt16");
    assert_eq!(bad(TagDataType::Int16, &[]), "Not enough data for Int16");
    assert_eq!(bad(TagDataType::UInt32, &[1, 2, 3]), "Not enough data for UInt32");
    assert_eq!(bad(TagDataType::Int32, &[1, 2]), "Not enough data for Int32");
    assert_eq!(bad(TagDataType::Float, &[1, 2]), "Not enough data for Float");
    assert_eq!(bad(TagDataType::Double, &[1; 7]), "Not enough data for Double");
    assert_eq!(bad(TagDataType::UInt64, &[1; 7]), "Not enough data for UInt64");
    assert_eq!(bad(TagDataType::Int64, &[1; 7]), "Not enough data for Int64");
    assert_eq!(bad(TagDataType::DateTime, b"2020"), "Invalid DateTime format");
    assert_eq!(bad(TagDataType::DateTime, &[0xFF]), "Not enough data for DateTime");
    assert_eq!(bad(TagDataType::DateTime, &[0xFF; 8]), "DateTime out of range");
}

#[test]
fn words_are_decoded_to_their_value() {
    let values = vec![
        TagValue::Bool(true),
        TagValue::UInt16(0xBEEF),
        TagValue::Int16(-2),
        TagValue::UInt32(0xDEADBEEF),
        TagValue::Int32(-70000),
        TagValue::Float(Float32::from_bits(3.5f32.to_bits())),
        TagValue::Double(Float64::from_bits((-1.25f64).to_bits())),
        TagValue::UInt64(u64::MAX - 1),
        TagValue::Int64(i64::MIN),
        TagValue::DateTime(Timestamp::from_millis(1_600_000_000_123).unwrap()),
        TagValue::ByteString(vec![1, 2, 3, 4]),
        TagValue::String("abc".into()),
        TagValue::String("\u{e9}\u{20ac}".into()),
    ];
    for v in values {
        let words = tagvalue_to_words_standard(&v).unwrap();
        let bytes: Vec<u8> = words.iter().flat_map(|w| w.to_be_bytes()).collect();
        assert_eq!(decode_value(v.data_type(), &bytes, 0).unwrap(), v);
    }
    assert_eq!(
        tagvalue_to_words_standard(&TagValue::ByteString(vec![1, 2, 3])).unwrap(),
        vec![0x0102, 0x0300]
    );
    assert!(can_frame(&TagValue::ByteString(vec![0; 1000])));
}

#[test]
fn abandoned_fins_cycle_makes_room_for_another() {
    let mut registry = make_registry(&[("t", TagDataType::UInt16)]);
    let mut driver = make_driver(vec![mapping("t", 7, 1, false, TagDataType::UInt16)]);
    assert!(driver.is_idle());
    assert!(matches!(driver.step(&mut registry, Event::Start).action, Action::Connect));
    assert!(!driver.is_idle());
    driver.abandon_cycle();
    assert!(driver.is_idle());
    let mut plc = Plc::new();
    plc.words.insert((0x82, 7), 9);
    let outcome = cycle(&mut driver, &mut registry, &mut plc, &mut VecDeque::new());
    assert!(outcome.result.is_ok());
    assert!(driver.is_idle());
    assert_eq!(plc.connects, 1);
    assert_eq!(registry.get_tag("t").unwrap().value, TagValue::UInt16(9));
}

#[test]
fn fins_overlap_at_the_highest_address_is_refused() {
    let at = |id: &str, address: u32, words: u16| {
        mapping(id, address, words, false, TagDataType::UInt16)
    };
    let validate = |mappings: Vec<TagMapping>| {
        let config = FinsConfig::new("plc", "127.0.0.1:9600", 100, mappings);
        assert!(can_plan(&config.mappings, config.max_words_per_request));
        FinsDriver::new(config).validate()
    };
    assert!(validate(vec![at("x", u32::MAX, 1), at("y", u32::MAX, 1)]).is_err());
    assert!(validate(vec![at("x", u32::MAX - 1, 2), at("y", u32::MAX, 1)]).is_err());
    assert!(validate(vec![at("x", u32::MAX - 1, 1), at("y", u32::MAX, 1)]).is_ok());
}
