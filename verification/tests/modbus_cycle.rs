use opcua_plc_bridge::core_model::{
    Float32, TagDataType, TagDefinition, TagQuality, TagRegistry, TagValue, WordOrder,
};
use opcua_plc_bridge::driver_common::write_request::{
    submit_result, Confirmation, Reply, ReplyId, SubmitError, WriteRequest,
};
use opcua_plc_bridge::driver_modbus::codec::decode_bytes_to_tagvalue;
use opcua_plc_bridge::driver_modbus::config::{
    default_io_timeout_ms, default_keepalive_secs, default_max_backoff_secs,
};
use opcua_plc_bridge::driver_modbus::driver::{Action, Event, ReadOutcome, WriteOutcome};
use opcua_plc_bridge::driver_modbus::{
    DriverError, ModbusConfig, ModbusDriver, ModbusFunction, ModbusMapping,
};
use opcua_plc_bridge::driver_common::words::registers_to_bytes;
use std::collections::{HashMap, VecDeque};

/// A device in memory: registers that were not set are zero.
struct Device {
    reachable: bool,
    holding: HashMap<u16, u16>,
    input: HashMap<u16, u16>,
    coils: HashMap<u16, bool>,
    failure: Option<fn() -> ReadOutcome>,
    reads: Vec<(ModbusFunction, u16, u16)>,
    connects: usize,
}

impl Device {
    fn new() -> Device {
        Device {
            reachable: true,
            holding: HashMap::new(),
            input: HashMap::new(),
            coils: HashMap::new(),
            failure: None,
            reads: Vec::new(),
            connects: 0,
        }
    }

    fn read(&mut self, function: ModbusFunction, start: u16, quantity: u16) -> ReadOutcome {
        self.reads.push((function, start, quantity));
        if let Some(f) = self.failure {
            return f();
        }
        let addresses = (0..quantity).map(|i| start + i);
        match function {
            ModbusFunction::HoldingRegisters => ReadOutcome::Registers(
                addresses.map(|a| self.holding.get(&a).copied().unwrap_or(0)).collect(),
            ),
            ModbusFunction::InputRegisters => ReadOutcome::Registers(
                addresses.map(|a| self.input.get(&a).copied().unwrap_or(0)).collect(),
            ),
            _ => ReadOutcome::Bits(
                addresses.map(|a| self.coils.get(&a).copied().unwrap_or(false)).collect(),
            ),
        }
    }
}

/// Run one cycle, and give back how it ended and the replies that it made.
fn cycle(
    driver: &mut ModbusDriver,
    registry: &mut TagRegistry,
    device: &mut Device,
    queue: &mut VecDeque<WriteRequest>,
) -> (Result<(), DriverError>, Vec<Reply>) {
    let mut replies = Vec::new();
    let mut event = Event::Start;
    loop {
        let step = driver.step(registry, event);
        if let Some(r) = step.reply {
            replies.push(r);
        }
        event = match step.action {
            Action::PollQueue => Event::Queue(queue.pop_front()),
            Action::Connect => {
                device.connects += 1;
                if device.reachable {
                    Event::Connected
                } else {
                    Event::ConnectFailed(DriverError::io("refused"))
                }
            }
            Action::Write { address, words } => {
                for (i, w) in words.iter().enumerate() {
                    device.holding.insert(address + i as u16, *w);
                }
                Event::Written(WriteOutcome::Done)
            }
            Action::WriteCoil { address, value } => {
                device.coils.insert(address, value);
                Event::Written(WriteOutcome::Done)
            }
            Action::Read { function, start, quantity } => {
                Event::Data(device.read(function, start, quantity))
            }
            Action::Finish(result) => return (result, replies),
        };
    }
}

fn make_registry(defs: &[(&str, TagDataType)]) -> TagRegistry {
    let defs: Vec<_> = defs
        .iter()
        .map(|(id, dt)| TagDefinition::new(id, id, "ignored", *dt, "test-plc"))
        .collect();
    TagRegistry::from_definitions(&defs).expect("valid defs")
}

fn make_driver(mappings: Vec<ModbusMapping>) -> ModbusDriver {
    let driver =
        ModbusDriver::new(ModbusConfig::new("test-plc", "127.0.0.1:502", 1, 100, mappings));
    assert!(driver.validate().is_ok());
    driver
}

fn read_one(mapping: ModbusMapping, data_type: TagDataType, device: &mut Device) -> TagRegistry {
    let id = mapping.tag_id.clone();
    let mut registry = make_registry(&[(id.as_str(), data_type)]);
    let mut driver = make_driver(vec![mapping]);
    let (r, _) = cycle(&mut driver, &mut registry, device, &mut VecDeque::new());
    r.expect("read cycle");
    registry
}

#[test]
fn read_u16_holding_register() {
    let mut device = Device::new();
    device.holding.insert(0, 0xABCD);
    let mapping = ModbusMapping::new(
        "tag",
        0,
        1,
        ModbusFunction::HoldingRegisters,
        TagDataType::UInt16,
        0,
        true,
        WordOrder::ABCD,
    );
    let registry = read_one(mapping, TagDataType::UInt16, &mut device);
    let tag = registry.get_tag("tag").expect("tag exists");
    assert_eq!(tag.value, TagValue::UInt16(0xABCD));
    assert_eq!(tag.quality, TagQuality::Good);
}

#[test]
fn read_u32_holding_registers() {
    let mut device = Device::new();
    device.holding.insert(10, 0x1234);
    device.holding.insert(11, 0x5678);
    let mapping = ModbusMapping::new(
        "u32tag",
        10,
        2,
        ModbusFunction::HoldingRegisters,
        TagDataType::UInt32,
        0,
        false,
        WordOrder::ABCD,
    );
    let registry = read_one(mapping, TagDataType::UInt32, &mut device);
    let tag = registry.get_tag("u32tag").expect("tag exists");
    assert_eq!(tag.value, TagValue::UInt32(0x12345678));
}

#[test]
fn read_f32_holding_registers() {
    let mut device = Device::new();
    let bits = std::f32::consts::PI.to_bits();
    device.holding.insert(5, (bits >> 16) as u16);
    device.holding.insert(6, (bits & 0xFFFF) as u16);
    let mapping = ModbusMapping::new(
        "ftag",
        5,
        2,
        ModbusFunction::HoldingRegisters,
        TagDataType::Float,
        0,
        false,
        WordOrder::ABCD,
    );
    let registry = read_one(mapping, TagDataType::Float, &mut device);
    let tag = registry.get_tag("ftag").expect("tag exists");
    assert_eq!(tag.value, TagValue::Float(Float32::from_bits(bits)));
}

#[test]
fn read_bool_coil() {
    let mut device = Device::new();
    device.coils.insert(3, true);
    let mapping = ModbusMapping::new(
        "btag",
        3,
        1,
        ModbusFunction::Coils,
        TagDataType::Bool,
        0,
        false,
        WordOrder::ABCD,
    );
    let registry = read_one(mapping, TagDataType::Bool, &mut device);
    let tag = registry.get_tag("btag").expect("tag exists");
    assert_eq!(tag.value, TagValue::Bool(true));
}

#[test]
fn read_input_registers() {
    let mut device = Device::new();
    device.input.insert(100, 0xDEAD);
    let mapping = ModbusMapping::new(
        "itag",
        100,
        1,
        ModbusFunction::InputRegisters,
        TagDataType::UInt16,
        0,
        false,
        WordOrder::ABCD,
    );
    let registry = read_one(mapping, TagDataType::UInt16, &mut device);
    let tag = registry.get_tag("itag").expect("tag exists");
    assert_eq!(tag.value, TagValue::UInt16(0xDEAD));
}

#[test]
fn write_holding_register_and_read_back() {
    let mut device = Device::new();
    let mapping = ModbusMapping::new(
        "wtag",
        42,
        1,
        ModbusFunction::HoldingRegisters,
        TagDataType::UInt16,
        0,
        true,
        WordOrder::ABCD,
    );
    let mut registry = make_registry(&[("wtag", TagDataType::UInt16)]);
    let mut driver = make_driver(vec![mapping]);
    let mut queue = VecDeque::new();
    let id = ReplyId { number: 1 };
    queue.push_back(WriteRequest::new("wtag", TagValue::UInt16(0xCAFE)).with_reply(id));
    let (read_res, replies) = cycle(&mut driver, &mut registry, &mut device, &mut queue);
    read_res.expect("read cycle");
    assert_eq!(replies.len(), 1);
    assert_eq!(replies[0].to, id);
    assert!(replies[0].result.is_ok());

    let tag = registry.get_tag("wtag").expect("tag exists");
    assert_eq!(tag.value, TagValue::UInt16(0xCAFE));
    assert_eq!(device.holding.get(&42).copied(), Some(0xCAFE));
}

#[test]
fn non_writable_tag_rejected() {
    let mut device = Device::new();
    let mapping = ModbusMapping::new(
        "rotag",
        0,
        1,
        ModbusFunction::HoldingRegisters,
        TagDataType::UInt16,
        0,
        false,
        WordOrder::ABCD,
    );
    let mut registry = make_registry(&[("rotag", TagDataType::UInt16)]);
    let mut driver = make_driver(vec![mapping]);
    let mut queue = VecDeque::new();
    queue.push_back(
        WriteRequest::new("rotag", TagValue::UInt16(99)).with_reply(ReplyId { number: 2 }),
    );
    let (_, replies) = cycle(&mut driver, &mut registry, &mut device, &mut queue);
    assert_eq!(replies.len(), 1);
    assert!(replies[0].result.is_err());
    assert_eq!(replies[0].result, Err("Tag not writable".to_string()));
    assert!(device.holding.is_empty());
}

#[test]
fn driver_reconnects_after_server_restart() {
    let mapping = ModbusMapping::new(
        "rtag",
        0,
        1,
        ModbusFunction::HoldingRegisters,
        TagDataType::UInt16,
        0,
        true,
        WordOrder::ABCD,
    );
    let mut registry = make_registry(&[("rtag", TagDataType::UInt16)]);
    let mut driver = make_driver(vec![mapping]);
    let mut device = Device::new();
    device.reachable = false;
    let (result, _) = cycle(&mut driver, &mut registry, &mut device, &mut VecDeque::new());
    assert!(result.is_err());

    device.reachable = true;
    device.holding.insert(0, 0x2222);
    let (result, _) = cycle(&mut driver, &mut registry, &mut device, &mut VecDeque::new());
    result.expect("read cycle after server starts");
    assert_eq!(registry.get_tag("rtag").unwrap().value, TagValue::UInt16(0x2222));

    // The connection is kept.
    let connects = device.connects;
    let (result, _) = cycle(&mut driver, &mut registry, &mut device, &mut VecDeque::new());
    assert!(result.is_ok());
    assert_eq!(device.connects, connects);
}

#[test]
fn byte_order_swapped_words() {
    let mut device = Device::new();
    device.holding.insert(0, 0x1234);
    device.holding.insert(1, 0x5678);
    let mapping = ModbusMapping::new(
        "swapped",
        0,
        2,
        ModbusFunction::HoldingRegisters,
        TagDataType::UInt32,
        0,
        false,
        WordOrder::CDAB,
    );
    let registry = read_one(mapping, TagDataType::UInt32, &mut device);
    let tag = registry.get_tag("swapped").expect("tag exists");
    assert_eq!(tag.value, TagValue::UInt32(0x56781234));
}

#[test]
fn multiple_tags_in_single_cycle() {
    let mut device = Device::new();
    device.holding.insert(100, 0xAAAA);
    device.holding.insert(101, 0xBBBB);
    device.holding.insert(102, 0xCCCC);
    device.holding.insert(103, 0xDDDD);
    let mappings = vec![
        ModbusMapping::new(
            "a",
            100,
            1,
            ModbusFunction::HoldingRegisters,
            TagDataType::UInt16,
            0,
            false,
            WordOrder::ABCD,
        ),
        ModbusMapping::new(
            "b",
            101,
            1,
            ModbusFunction::HoldingRegisters,
            TagDataType::UInt16,
            0,
            false,
            WordOrder::ABCD,
        ),
        ModbusMapping::new(
            "c",
            102,
            2,
            ModbusFunction::HoldingRegisters,
            TagDataType::UInt32,
            0,
            false,
            WordOrder::ABCD,
        ),
    ];
    let mut registry = make_registry(&[
        ("a", TagDataType::UInt16),
        ("b", TagDataType::UInt16),
        ("c", TagDataType::UInt32),
    ]);
    let mut driver = make_driver(mappings);
    let (r, _) = cycle(&mut driver, &mut registry, &mut device, &mut VecDeque::new());
    r.expect("read cycle");
    assert_eq!(registry.get_tag("a").unwrap().value, TagValue::UInt16(0xAAAA));
    assert_eq!(registry.get_tag("b").unwrap().value, TagValue::UInt16(0xBBBB));
    assert_eq!(registry.get_tag("c").unwrap().value, TagValue::UInt32(0xCCCCDDDD));
    // Adjacent registers are read by one request.
    assert_eq!(device.reads, vec![(ModbusFunction::HoldingRegisters, 100, 4)]);
}

#[test]
fn invalid_address_marks_config_error() {
    let mut device = Device::new();
    let mapping = ModbusMapping::new(
        "bad",
        9999,
        1,
        ModbusFunction::HoldingRegisters,
        TagDataType::UInt16,
        0,
        false,
        WordOrder::ABCD,
    );
    // The device answers zeros for registers that were not set, which is no error.
    let registry = read_one(mapping, TagDataType::UInt16, &mut device);
    assert_eq!(registry.get_tag("bad").unwrap().quality, TagQuality::Good);
}

#[test]
fn validate_rejects_overlapping_ranges() {
    let mappings = vec![
        ModbusMapping::new(
            "x",
            10,
            2,
            ModbusFunction::HoldingRegisters,
            TagDataType::UInt16,
            0,
            false,
            WordOrder::ABCD,
        ),
        ModbusMapping::new(
            "y",
            11,
            1,
            ModbusFunction::HoldingRegisters,
            TagDataType::UInt16,
            0,
            false,
            WordOrder::ABCD,
        ),
    ];
    let config = ModbusConfig::new("test", "127.0.0.1:502", 1, 100, mappings);
    let driver = ModbusDriver::new(config);
    let result = driver.validate();
    assert!(result.is_err(), "overlapping ranges must fail validation");
    match result {
        Err(DriverError::Mapping(m)) => assert_eq!(
            m,
            "Overlapping Modbus ranges for function HoldingRegisters: 'x'[10..11] overlaps 'y'[11..11]"
        ),
        other => panic!("unexpected {:?}", other),
    }
}

#[test]
fn validate_rejects_zero_quantity() {
    let mappings = vec![ModbusMapping::new(
        "z",
        0,
        0,
        ModbusFunction::HoldingRegisters,
        TagDataType::UInt16,
        0,
        false,
        WordOrder::ABCD,
    )];
    let config = ModbusConfig::new("test", "127.0.0.1:502", 1, 100, mappings);
    let driver = ModbusDriver::new(config);
    assert!(driver.validate().is_err());
}

fn fault_of(m: ModbusMapping) -> String {
    let driver = ModbusDriver::new(ModbusConfig::new("t", "e", 1, 100, vec![m]));
    match driver.validate() {
        Err(DriverError::Mapping(s)) => s,
        other => panic!("unexpected {:?}", other),
    }
}

#[test]
fn each_mapping_fault_is_named() {
    let hold = ModbusFunction::HoldingRegisters;
    let abcd = WordOrder::ABCD;
    assert_eq!(
        fault_of(ModbusMapping::new("m", 0, 0, hold, TagDataType::UInt16, 0, false, abcd)),
        "Mapping 'm' has zero quantity"
    );
    assert_eq!(
        fault_of(ModbusMapping::new("m", 0, 1, hold, TagDataType::Bool, 16, false, abcd)),
        "Mapping 'm' has invalid bit_offset 16 (must be 0..15)"
    );
    assert_eq!(
        fault_of(ModbusMapping::new("m", 0, 1, hold, TagDataType::Float, 0, false, abcd)),
        "Mapping 'm' data_type requires quantity >= 2"
    );
    assert_eq!(
        fault_of(ModbusMapping::new("m", 0, 3, hold, TagDataType::Double, 0, false, abcd)),
        "Mapping 'm' data_type 'Double' requires quantity >= 4"
    );
    assert_eq!(
        fault_of(ModbusMapping::new(
            "m",
            0,
            1,
            ModbusFunction::InputRegisters,
            TagDataType::UInt16,
            0,
            true,
            abcd
        )),
        "Mapping 'm' marked writable but uses read-only function InputRegisters"
    );
    assert_eq!(
        fault_of(ModbusMapping::new(
            "m",
            0,
            1,
            hold,
            TagDataType::UInt16,
            0,
            false,
            WordOrder::DCBA
        )),
        "Mapping 'm' uses byte_order DCBA which requires quantity >= 2"
    );
}

#[test]
fn defaults_are_set() {
    let cfg = ModbusConfig {
        name: "plc-x".into(),
        endpoint: "127.0.0.1:502".into(),
        unit_id: 1,
        cycle_ms: 100,
        mappings: vec![],
        keepalive_secs: default_keepalive_secs(),
        max_backoff_secs: default_max_backoff_secs(),
        io_timeout_ms: default_io_timeout_ms(),
    };
    assert_eq!(cfg.keepalive_secs, 30);
    assert_eq!(cfg.max_backoff_secs, 30);
    assert_eq!(cfg.io_timeout_ms, 2000);
}

#[test]
fn create_with_new_and_mapping() {
    let mapping = ModbusMapping::new(
        "PLC::Tag",
        0,
        1,
        ModbusFunction::HoldingRegisters,
        TagDataType::UInt16,
        0,
        true,
        WordOrder::ABCD,
    );
    let cfg = ModbusConfig::new("plc-1", "10.0.0.1:502", 1, 200, vec![mapping]);
    assert_eq!(cfg.name, "plc-1");
    assert_eq!(cfg.cycle_ms, 200);
    assert_eq!(cfg.mappings.len(), 1);
}

#[test]
fn instantiate_driver_and_queue_write() {
    let defs = vec![TagDefinition::new(
        "tag1",
        "tag1",
        "ADDR1",
        TagDataType::UInt16,
        "test-modbus",
    )];
    let mut registry = TagRegistry::from_definitions(&defs).expect("build registry");
    let cfg = ModbusConfig {
        name: "test-modbus".into(),
        endpoint: "127.0.0.1:502".into(),
        unit_id: 1,
        cycle_ms: 1000,
        mappings: vec![ModbusMapping::new(
            "tag1",
            0,
            1,
            ModbusFunction::HoldingRegisters,
            TagDataType::UInt16,
            0,
            true,
            WordOrder::ABCD,
        )],
        keepalive_secs: 0,
        max_backoff_secs: 1,
        io_timeout_ms: 2000,
    };
    let mut drv = ModbusDriver::new(cfg);
    assert!(drv.validate().is_ok());
    let mut queue = VecDeque::new();
    queue.push_back(WriteRequest::new("tag1", TagValue::UInt16(1234)));
    let mut device = Device::new();
    let (r, replies) = cycle(&mut drv, &mut registry, &mut device, &mut queue);
    assert!(r.is_ok());
    assert!(replies.is_empty());
    assert_eq!(device.holding.get(&0).copied(), Some(1234));
}

#[test]
fn register_bytes_endianness() {
    let regs = vec![0x1234u16, 0xABCDu16];
    let bytes = registers_to_bytes(&regs);
    assert_eq!(bytes, vec![0x12, 0x34, 0xAB, 0xCD]);
}

#[test]
fn create_and_attach_reply() {
    let req = WriteRequest::new("PLC::Tag1", TagValue::UInt16(42));
    assert_eq!(req.tag_id, "PLC::Tag1");
    assert!(req.reply.is_none());

    let req2 = req.with_reply(ReplyId { number: 9 });
    assert!(req2.reply.is_some());
}

#[test]
fn take_reply_consumes_channel() {
    let mut req = WriteRequest::new("t", TagValue::Bool(true));
    req = req.with_reply(ReplyId { number: 1 });
    assert!(req.reply.is_some());
    let taken = req.take_reply();
    assert_eq!(taken, Some(ReplyId { number: 1 }));
    assert!(req.reply.is_none());
}

fn failing(f: fn() -> ReadOutcome) -> (Result<(), DriverError>, TagQuality, usize) {
    let mapping = ModbusMapping::new(
        "t",
        0,
        1,
        ModbusFunction::HoldingRegisters,
        TagDataType::UInt16,
        0,
        true,
        WordOrder::ABCD,
    );
    let mut registry = make_registry(&[("t", TagDataType::UInt16)]);
    let mut driver = make_driver(vec![mapping]);
    let mut device = Device::new();
    device.failure = Some(f);
    let (r, _) = cycle(&mut driver, &mut registry, &mut device, &mut VecDeque::new());
    let quality = registry.get_tag("t").unwrap().quality.clone();
    device.failure = None;
    cycle(&mut driver, &mut registry, &mut device, &mut VecDeque::new()).0.unwrap();
    (r, quality, device.connects)
}

#[test]
fn read_failures_mark_tags() {
    let (r, q, connects) = failing(|| ReadOutcome::Exception("Illegal data address".into()));
    assert!(r.is_ok());
    assert_eq!(q, TagQuality::ConfigError);
    assert_eq!(connects, 1);

    let (r, q, connects) = failing(|| ReadOutcome::TimedOut);
    assert!(matches!(r, Err(DriverError::Modbus(ref m)) if m == "Timeout"));
    assert_eq!(q, TagQuality::CommLost);
    assert_eq!(connects, 2);

    let (r, q, _) = failing(|| ReadOutcome::Exception("Slave device failure".into()));
    assert!(r.is_ok());
    assert_eq!(q, TagQuality::Initializing);

    let (r, q, connects) = failing(|| ReadOutcome::Exception("Slave Device Failure".into()));
    assert!(r.is_err());
    assert_eq!(q, TagQuality::CommLost);
    assert_eq!(connects, 2);

    let (r, q, _) = failing(|| ReadOutcome::Registers(vec![]));
    assert!(r.is_ok());
    assert_eq!(q, TagQuality::ConfigError);
}

#[test]
fn failed_write_ends_the_cycle() {
    let mapping = ModbusMapping::new(
        "w",
        0,
        1,
        ModbusFunction::HoldingRegisters,
        TagDataType::UInt16,
        0,
        true,
        WordOrder::ABCD,
    );
    let id = ReplyId { number: 5 };
    for (outcome, text) in [
        (WriteOutcome::TimedOut, "Timeout"),
        (WriteOutcome::Transport("gone".into()), "Transport: gone"),
        (WriteOutcome::Exception("busy".into()), "Modbus error: busy"),
    ] {
        let mut registry = make_registry(&[("w", TagDataType::UInt16)]);
        let mut driver = make_driver(vec![ModbusMapping::new(
            &mapping.tag_id,
            0,
            1,
            ModbusFunction::HoldingRegisters,
            TagDataType::UInt16,
            0,
            true,
            WordOrder::ABCD,
        )]);
        let step = driver.step(&mut registry, Event::Start);
        assert!(matches!(step.action, Action::PollQueue));
        let req = WriteRequest::new("w", TagValue::UInt16(3)).with_reply(id);
        let step = driver.step(&mut registry, Event::Queue(Some(req)));
        assert!(matches!(step.action, Action::Connect));
        let step = driver.step(&mut registry, Event::Connected);
        assert!(matches!(step.action, Action::Write { address: 0, .. }));
        let step = driver.step(&mut registry, Event::Written(outcome));
        assert!(step.disconnect);
        assert!(matches!(step.action, Action::Finish(Err(_))));
        assert_eq!(step.reply.unwrap().result, Err(text.to_string()));
        assert_eq!(registry.get_tag("w").unwrap().quality, TagQuality::CommLost);
    }
}

#[test]
fn a_cycle_takes_sixty_four_writes() {
    let mapping = ModbusMapping::new(
        "w",
        0,
        1,
        ModbusFunction::HoldingRegisters,
        TagDataType::UInt16,
        0,
        true,
        WordOrder::ABCD,
    );
    let mut registry = make_registry(&[("w", TagDataType::UInt16)]);
    let mut driver = make_driver(vec![mapping]);
    let mut device = Device::new();
    let mut queue: VecDeque<WriteRequest> =
        (0..70).map(|i| WriteRequest::new("w", TagValue::UInt16(i))).collect();
    cycle(&mut driver, &mut registry, &mut device, &mut queue).0.unwrap();
    assert_eq!(queue.len(), 6);
    assert_eq!(device.holding.get(&0).copied(), Some(63));
}

#[test]
fn long_ranges_are_split() {
    let mapping = ModbusMapping::new(
        "long",
        10,
        300,
        ModbusFunction::HoldingRegisters,
        TagDataType::ByteString,
        0,
        false,
        WordOrder::ABCD,
    );
    let mut device = Device::new();
    let _ = read_one(mapping, TagDataType::ByteString, &mut device);
    let hold = ModbusFunction::HoldingRegisters;
    assert_eq!(device.reads, vec![(hold, 10, 125), (hold, 135, 125), (hold, 260, 50)]);
}

#[test]
fn every_order_reads_what_it_wrote() {
    for order in [WordOrder::ABCD, WordOrder::BADC, WordOrder::CDAB, WordOrder::DCBA] {
        let mapping = ModbusMapping::new(
            "v",
            7,
            4,
            ModbusFunction::HoldingRegisters,
            TagDataType::UInt64,
            0,
            true,
            order,
        );
        let mut registry = make_registry(&[("v", TagDataType::UInt64)]);
        let mut driver = make_driver(vec![mapping]);
        let mut device = Device::new();
        let mut queue = VecDeque::new();
        queue.push_back(WriteRequest::new("v", TagValue::UInt64(0x0123_4567_89AB_CDEF)));
        cycle(&mut driver, &mut registry, &mut device, &mut queue).0.unwrap();
        let tag = registry.get_tag("v").unwrap();
        assert_eq!(tag.value, TagValue::UInt64(0x0123_4567_89AB_CDEF));
        assert_eq!(tag.quality, TagQuality::Good);
        if order == WordOrder::DCBA {
            assert_eq!(device.holding.get(&7).copied(), Some(0x6745));
        }
    }
}

#[test]
fn texts_and_numbers_are_decoded() {
    let hold = ModbusFunction::HoldingRegisters;
    let decode = |t: TagDataType, b: &[u8]| decode_bytes_to_tagvalue(&t, b, &hold, 0).unwrap();
    assert_eq!(decode(TagDataType::String, b"Hi\0\0"), TagValue::String("Hi".into()));
    assert_eq!(decode(TagDataType::String, &[0xFF, 0x01]), TagValue::String("FF01".into()));
    assert_eq!(decode(TagDataType::Int16, &[0xFF, 0xFE]), TagValue::Int16(-2));
    assert_eq!(
        decode(TagDataType::Int32, &[0xFF, 0xFF, 0xFF, 0xFD]),
        TagValue::Int32(-3)
    );
}

#[test]
fn submission_ends_by_its_confirmation() {
    assert!(submit_result(Confirmation::Replied(Ok(()))).is_ok());
    match submit_result(Confirmation::Replied(Err("no".into()))) {
        Err(SubmitError::Failed(m)) => assert_eq!(m, "no"),
        other => panic!("unexpected {:?}", other),
    }
    match submit_result(Confirmation::Closed) {
        Err(SubmitError::Failed(m)) => assert_eq!(m, "reply channel closed"),
        other => panic!("unexpected {:?}", other),
    }
    match submit_result(Confirmation::TimedOut) {
        Err(SubmitError::TimedOut(m)) => assert_eq!(m, "write confirmation timed out"),
        other => panic!("unexpected {:?}", other),
    }
}

#[test]
fn abandoned_modbus_cycle_makes_room_for_another() {
    let mut registry = make_registry(&[("t", TagDataType::UInt16)]);
    let mut driver = make_driver(vec![ModbusMapping::new(
        "t",
        7,
        1,
        ModbusFunction::HoldingRegisters,
        TagDataType::UInt16,
        0,
        false,
        WordOrder::ABCD,
    )]);
    assert!(driver.is_idle());
    assert!(matches!(driver.step(&mut registry, Event::Start).action, Action::PollQueue));
    assert!(!driver.is_idle());
    driver.abandon_cycle();
    assert!(driver.is_idle());
    let mut device = Device::new();
    device.holding.insert(7, 9);
    let (result, _) = cycle(&mut driver, &mut registry, &mut device, &mut VecDeque::new());
    assert!(result.is_ok());
    assert!(driver.is_idle());
    assert_eq!(device.connects, 1);
    assert_eq!(registry.get_tag("t").unwrap().value, TagValue::UInt16(9));
}

fn coil(id: &str, address: u16, quantity: u16, bit_offset: u8, writable: bool) -> ModbusMapping {
    ModbusMapping::new(
        id,
        address,
        quantity,
        ModbusFunction::Coils,
        TagDataType::Bool,
        bit_offset,
        writable,
        WordOrder::ABCD,
    )
}

#[test]
fn adjacent_coils_are_read_from_their_own_addresses() {
    for set in 0u16..20 {
        let ids: Vec<String> = (0..20).map(|a| format!("c{}", a)).collect();
        let defs: Vec<_> = ids.iter().map(|id| (id.as_str(), TagDataType::Bool)).collect();
        let mut registry = make_registry(&defs);
        let mut driver = make_driver(
            ids.iter().enumerate().map(|(a, id)| coil(id, a as u16, 1, 0, false)).collect(),
        );
        let mut device = Device::new();
        device.coils.insert(set, true);
        let (result, _) = cycle(&mut driver, &mut registry, &mut device, &mut VecDeque::new());
        assert!(result.is_ok());
        assert_eq!(device.reads, vec![(ModbusFunction::Coils, 0, 20)]);
        for (a, id) in ids.iter().enumerate() {
            let tag = registry.get_tag(id).unwrap();
            assert_eq!(tag.value, TagValue::Bool(a as u16 == set));
            assert_eq!(tag.quality, TagQuality::Good);
        }
    }
}

#[test]
fn coil_in_a_wider_mapping_is_found_by_its_bit_offset() {
    let mut registry = make_registry(&[("a", TagDataType::Bool), ("b", TagDataType::Bool)]);
    let mut driver = make_driver(vec![coil("a", 5, 3, 0, false), coil("b", 8, 4, 2, false)]);
    let mut device = Device::new();
    device.coils.insert(10, true);
    let (result, _) = cycle(&mut driver, &mut registry, &mut device, &mut VecDeque::new());
    assert!(result.is_ok());
    assert_eq!(registry.get_tag("a").unwrap().value, TagValue::Bool(false));
    assert_eq!(registry.get_tag("b").unwrap().value, TagValue::Bool(true));
}

#[test]
fn coil_answer_that_is_too_short_is_a_configuration_error() {
    let mut registry = make_registry(&[("a", TagDataType::Bool), ("b", TagDataType::Bool)]);
    let mut driver = make_driver(vec![coil("a", 0, 1, 0, false), coil("b", 1, 1, 0, false)]);
    let mut device = Device::new();
    device.failure = Some(|| ReadOutcome::Bits(vec![true]));
    let (result, _) = cycle(&mut driver, &mut registry, &mut device, &mut VecDeque::new());
    assert!(result.is_ok());
    assert_eq!(registry.get_tag("a").unwrap().value, TagValue::Bool(true));
    assert_eq!(registry.get_tag("b").unwrap().quality, TagQuality::ConfigError);
}

#[test]
fn coil_is_written_and_read_back() {
    let mut registry = make_registry(&[("a", TagDataType::Bool), ("b", TagDataType::Bool)]);
    let mut driver = make_driver(vec![coil("a", 3, 1, 0, true), coil("b", 4, 4, 2, true)]);
    let mut device = Device::new();
    let mut queue = VecDeque::new();
    queue.push_back(
        WriteRequest::new("a", TagValue::Bool(true)).with_reply(ReplyId { number: 1 }),
    );
    queue.push_back(
        WriteRequest::new("b", TagValue::Bool(true)).with_reply(ReplyId { number: 2 }),
    );
    let (result, replies) = cycle(&mut driver, &mut registry, &mut device, &mut queue);
    assert!(result.is_ok());
    assert_eq!(replies.len(), 2);
    assert!(replies.iter().all(|r| r.result.is_ok()));
    assert_eq!(device.coils.get(&3), Some(&true));
    assert_eq!(device.coils.get(&6), Some(&true));
    assert_eq!(device.coils.len(), 2);
    for id in ["a", "b"] {
        assert_eq!(registry.get_tag(id).unwrap().value, TagValue::Bool(true));
        assert_eq!(registry.get_tag(id).unwrap().quality, TagQuality::Good);
    }
}

#[test]
fn what_no_coil_can_hold_is_not_written() {
    let mut registry = make_registry(&[("a", TagDataType::Bool), ("b", TagDataType::Bool)]);
    let mut driver = make_driver(vec![coil("a", 3, 1, 0, true), coil("b", 4, 1, 2, true)]);
    let mut device = Device::new();
    let mut queue = VecDeque::new();
    queue.push_back(
        WriteRequest::new("a", TagValue::UInt16(7)).with_reply(ReplyId { number: 1 }),
    );
    queue.push_back(
        WriteRequest::new("b", TagValue::Bool(true)).with_reply(ReplyId { number: 2 }),
    );
    let (result, replies) = cycle(&mut driver, &mut registry, &mut device, &mut queue);
    assert!(result.is_ok());
    assert!(device.coils.is_empty());
    for r in replies {
        assert_eq!(r.result.unwrap_err(), "Unsupported write function");
    }
}

#[test]
fn modbus_overlap_at_the_highest_address_is_refused() {
    let at = |id: &str, address: u16, quantity: u16| {
        ModbusMapping::new(
            id,
            address,
            quantity,
            ModbusFunction::HoldingRegisters,
            TagDataType::UInt16,
            0,
            false,
            WordOrder::ABCD,
        )
    };
    let validate = |mappings: Vec<ModbusMapping>| {
        ModbusDriver::new(ModbusConfig::new("p", "127.0.0.1:502", 1, 100, mappings)).validate()
    };
    match validate(vec![at("x", 65535, 1), at("y", 65535, 1)]) {
        Err(DriverError::Mapping(m)) => assert_eq!(
            m,
            "Overlapping Modbus ranges for function HoldingRegisters: 'x'[65535..65535] overlaps 'y'[65535..65535]"
        ),
        other => panic!("unexpected {:?}", other),
    }
    assert!(validate(vec![at("x", 65534, 2), at("y", 65535, 1)]).is_err());
    assert!(validate(vec![at("x", 65534, 1), at("y", 65535, 1)]).is_ok());
}
