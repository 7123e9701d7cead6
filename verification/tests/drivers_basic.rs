use opcua_plc_bridge::core_model::{TagDataType, WordOrder};
use opcua_plc_bridge::driver_fins;
use opcua_plc_bridge::driver_modbus;

#[test]
fn errors_display_variants() {
    assert_eq!(driver_fins::DriverError::Timeout.message(), "Timeout");
    assert_eq!(
        driver_fins::DriverError::protocol("bad frame").message(),
        "Protocol error: bad frame"
    );
    assert_eq!(
        driver_fins::DriverError::mapping("unknown tag").message(),
        "Mapping error: unknown tag"
    );
    assert_eq!(
        driver_fins::DriverError::other("boom").message(),
        "Other: boom"
    );
}

#[test]
fn display_variants() {
    let e = driver_modbus::DriverError::Timeout;
    assert_eq!(e.message(), "Timeout");

    let e = driver_modbus::DriverError::modbus("illegal address");
    assert_eq!(e.message(), "Modbus protocol error: illegal address");

    let e = driver_modbus::DriverError::mapping("unknown tag");
    assert_eq!(e.message(), "Mapping error: unknown tag");

    let e = driver_modbus::DriverError::other("boom");
    assert_eq!(e.message(), "Other: boom");
}

#[test]
fn errors_from_io_error() {
    let io = std::io::Error::other("network down");
    let de = driver_fins::DriverError::io(&io.to_string());
    assert!(matches!(de, driver_fins::DriverError::Io(_)));
    assert!(de.message().contains("IO error"));
    assert_eq!(de.message(), "IO error: network down");
}

#[test]
fn from_io_error() {
    let io = std::io::Error::other("network down");
    let de = driver_modbus::DriverError::io(&io.to_string());
    assert!(matches!(de, driver_modbus::DriverError::Io(_)));
    assert!(de.message().contains("IO/network error"));
}

#[test]
fn mapping_default_helpers_work() {
    assert_eq!(driver_fins::mapping::default_word_count(), 1);
    assert_eq!(driver_fins::mapping::default_bit_offset(), 0);
}

#[test]
fn default_helpers_work() {
    assert_eq!(driver_modbus::mapping::default_quantity(), 1);
    assert_eq!(driver_modbus::mapping::default_bit_offset(), 0);
}

#[test]
fn new_mapping_fields() {
    let m = driver_fins::TagMapping::new(
        "PLC::Tag",
        0x82,
        123,
        0,
        2,
        true,
        WordOrder::ABCD,
        TagDataType::UInt16,
    );
    assert_eq!(m.tag_id.as_str(), "PLC::Tag");
    assert_eq!(m.area, 0x82);
    assert_eq!(m.address, 123);
    assert_eq!(m.word_count, 2);
    assert!(m.writable);
}

#[test]
fn create_mapping_roundtrip() {
    let m = driver_modbus::ModbusMapping::new(
        "PLC::T",
        10,
        2,
        driver_modbus::ModbusFunction::HoldingRegisters,
        TagDataType::UInt16,
        0,
        true,
        WordOrder::ABCD,
    );
    assert_eq!(m.tag_id.as_str(), "PLC::T");
    assert_eq!(m.address, 10);
    assert_eq!(m.quantity, 2);
    assert!(m.writable);
}

#[test]
fn modbus_function_display() {
    assert_eq!(driver_modbus::ModbusFunction::Coils.name(), "Coils");
    assert_eq!(
        driver_modbus::ModbusFunction::HoldingRegisters.name(),
        "HoldingRegisters"
    );
}
