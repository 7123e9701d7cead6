//! Modbus functions and per-tag mappings.

use crate::core_model::tag_value::{TagDataType, WordOrder};
use vstd::prelude::*;
use vstd::string::*;

verus! {

/// Quantity (1 register/coil) used when the configuration omits `quantity`.
pub fn default_quantity() -> (r: u16)
    ensures
        r == 1,
{
    1
}

/// Bit offset (0) used when the configuration omits `bit_offset`.
pub fn default_bit_offset() -> (r: u8)
    ensures
        r == 0,
{
    0
}

/// Modbus function / data type selector used to choose the proper Modbus operation.
#[derive(Clone, Copy, Debug, PartialEq, Eq, Hash, Structural)]
pub enum ModbusFunction {
    /// Read/write coils (bit-level discrete outputs)
    Coils,
    /// Read discrete inputs (read-only bits)
    DiscreteInputs,
    /// Holding registers (read/write 16-bit words typically)
    HoldingRegisters,
    /// Input registers (read-only 16-bit words)
    InputRegisters,
}

/// The name of a function.
pub open spec fn function_name(f: ModbusFunction) -> Seq<char> {
    match f {
        ModbusFunction::Coils => "Coils"@,
        ModbusFunction::DiscreteInputs => "DiscreteInputs"@,
        ModbusFunction::HoldingRegisters => "HoldingRegisters"@,
        ModbusFunction::InputRegisters => "InputRegisters"@,
    }
}

impl ModbusFunction {
    /// The name of the function.
    pub fn name(&self) -> (r: &'static str)
        ensures
            r@ == function_name(*self),
    {
        match self {
            ModbusFunction::Coils => "Coils",
            ModbusFunction::DiscreteInputs => "DiscreteInputs",
            ModbusFunction::HoldingRegisters => "HoldingRegisters",
            ModbusFunction::InputRegisters => "InputRegisters",
        }
    }
}

/// Mapping from a tag id to Modbus addressing details.
#[derive(Debug)]
pub struct ModbusMapping {
    /// Id of the tag.
    pub tag_id: String,
    /// Data type of this mapping.
    pub data_type: TagDataType,
    /// 0-based Modbus address / register offset.
    pub address: u16,
    /// Number of registers or coils to read.
    pub quantity: u16,
    /// Which Modbus function to use.
    pub function: ModbusFunction,
    /// Bit offset inside a word for boolean tags.
    pub bit_offset: u8,
    /// Whether this tag accepts writes from higher layers.
    pub writable: bool,
    /// Byte/word ordering for multi-register values.
    pub byte_order: WordOrder,
}

/// What a [`ModbusMapping`] says.
#[verifier::ext_equal]
pub ghost struct ModbusMappingView {
    pub tag_id: Seq<char>,
    pub data_type: TagDataType,
    pub address: u16,
    pub quantity: u16,
    pub function: ModbusFunction,
    pub bit_offset: u8,
    pub writable: bool,
    pub byte_order: WordOrder,
}

impl View for ModbusMapping {
    type V = ModbusMappingView;

    open spec fn view(&self) -> ModbusMappingView {
        ModbusMappingView {
            tag_id: self.tag_id@,
            data_type: self.data_type,
            address: self.address,
            quantity: self.quantity,
            function: self.function,
            bit_offset: self.bit_offset,
            writable: self.writable,
            byte_order: self.byte_order,
        }
    }
}

/// What the mappings of a sequence say.
pub open spec fn mapping_views(ms: Seq<ModbusMapping>) -> Seq<ModbusMappingView> {
    Seq::new(ms.len(), |i: int| ms[i]@)
}

impl ModbusMapping {
    /// A mapping of its parts.
    pub fn new(
        tag_id: &str,
        address: u16,
        quantity: u16,
        function: ModbusFunction,
        data_type: TagDataType,
        bit_offset: u8,
        writable: bool,
        byte_order: WordOrder,
    ) -> (r: ModbusMapping)
        ensures
            r@ == (ModbusMappingView {
                tag_id: tag_id@,
                data_type,
                address,
                quantity,
                function,
                bit_offset,
                writable,
                byte_order,
            }),
    {
        ModbusMapping {
            tag_id: tag_id.to_owned(),
            data_type,
            address,
            quantity,
            function,
            bit_offset,
            writable,
            byte_order,
        }
    }
}

} // verus!
