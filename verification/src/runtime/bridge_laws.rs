//! What passes through the bridge, from the registers of a PLC to a client and back.

use crate::core_model::registry::RegistryView;
use crate::core_model::tag_value::{TagDataType, TagValueView, WordOrder};
use crate::driver_common::word_laws::{
    bytes_make_up_the_words, plain_words_are_written, words_make_up_the_number, words_number,
};
use crate::driver_common::words::bytes_of;
use crate::driver_common::write_request::WriteRequestView;
use crate::driver_modbus::cycle_laws::{
    answer_reaches_every_tag, holding_registers_are_written, is_first_mapping, is_only_member,
    own_registers,
};
use crate::driver_modbus::driver::{ActionView, EventView, ModbusDriverView};
use crate::driver_modbus::mapping::ModbusFunction;
use crate::driver_modbus::read::ReadDataView;
use crate::driver_modbus::value_laws::registers_are_decoded_as_numbers;
use crate::opcua_server::data_source::{value_read, value_written};
use crate::opcua_server::variant::{StatusCode, VariantView};
use crate::time::Timestamp;
use vstd::prelude::*;

verus! {

/// A request that covers the mapping of its member `k`, whose tag is defined with the type of the
/// mapping and is no other member's, was answered with enough registers.
pub open spec fn answers_member(
    d: ModbusDriverView,
    reg: RegistryView,
    registers: Seq<u16>,
    k: int,
) -> bool {
    let c = d.plan()[d.phase->Reading_next];
    let m = d.mappings[c.members[k]];
    &&& d.sound()
    &&& d.phase is Reading
    &&& is_only_member(d.mappings, c.members, k)
    &&& reg.has_tag(m.tag_id)
    &&& reg.definitions.contains_key(m.tag_id)
    &&& reg.definitions[m.tag_id].data_type == m.data_type
    &&& 0 < m.quantity
    &&& c.start <= m.address
    &&& m.address + m.quantity <= c.start + c.len
    &&& m.address + m.quantity - c.start <= registers.len()
}

proof fn own_bytes(
    d: ModbusDriverView,
    reg: RegistryView,
    registers: Seq<u16>,
    k: int,
    i: int,
)
    requires
        answers_member(d, reg, registers, k),
        0 <= i < d.mappings[d.plan()[d.phase->Reading_next].members[k]].quantity,
    ensures
        ({
            let c = d.plan()[d.phase->Reading_next];
            let m = d.mappings[c.members[k]];
            let b = bytes_of(own_registers(m, c, registers));
            &&& b.len() == 2 * m.quantity
            &&& b[2 * i] * 0x100 + b[2 * i + 1] == registers[m.address - c.start + i]
        }),
{
    let c = d.plan()[d.phase->Reading_next];
    let m = d.mappings[c.members[k]];
    bytes_make_up_the_words(own_registers(m, c, registers), i);
}

/// What the register of a 16-bit tag holds, a client reads of it as soon as the PLC has answered,
/// with the status `Good`.
pub proof fn client_reads_the_register(
    d: ModbusDriverView,
    reg: RegistryView,
    registers: Seq<u16>,
    k: int,
    now: Timestamp,
)
    requires
        answers_member(d, reg, registers, k),
        ({
            let m = d.mappings[d.plan()[d.phase->Reading_next].members[k]];
            &&& m.data_type == TagDataType::UInt16 || m.data_type == TagDataType::Int16
            &&& m.byte_order == WordOrder::ABCD
        }),
    ensures
        ({
            let c = d.plan()[d.phase->Reading_next];
            let m = d.mappings[c.members[k]];
            let o = d.on_event(
                reg,
                EventView::Data(Ok(ReadDataView::Registers(registers))),
                now,
            );
            let held = registers[m.address - c.start];
            &&& value_read(o.registry, m.tag_id) matches Ok(v) && v.status == StatusCode::Good && {
                match v.variant {
                    VariantView::UInt16(n) => m.data_type == TagDataType::UInt16 && n == held,
                    VariantView::Int16(n) => m.data_type == TagDataType::Int16 && n as int % 0x1_0000
                        == held,
                    _ => false,
                }
            }
        }),
{
    let c = d.plan()[d.phase->Reading_next];
    let m = d.mappings[c.members[k]];
    let b = bytes_of(own_registers(m, c, registers));
    answer_reaches_every_tag(d, reg, registers, k, now);
    own_bytes(d, reg, registers, k, 0);
    crate::core_model::order_laws::plain_order_keeps_bytes(b);
    registers_are_decoded_as_numbers(m.data_type, b, m.bit_offset);
}

/// What the two registers of a 32-bit tag make up, the first one being the more significant, a
/// client reads of it as soon as the PLC has answered, with the status `Good`.
pub proof fn client_reads_two_registers(
    d: ModbusDriverView,
    reg: RegistryView,
    registers: Seq<u16>,
    k: int,
    now: Timestamp,
)
    requires
        answers_member(d, reg, registers, k),
        ({
            let m = d.mappings[d.plan()[d.phase->Reading_next].members[k]];
            &&& m.data_type == TagDataType::UInt32 || m.data_type == TagDataType::Int32
                || m.data_type == TagDataType::Float
            &&& m.byte_order == WordOrder::ABCD
            &&& m.quantity == 2
        }),
    ensures
        ({
            let c = d.plan()[d.phase->Reading_next];
            let m = d.mappings[c.members[k]];
            let o = d.on_event(
                reg,
                EventView::Data(Ok(ReadDataView::Registers(registers))),
                now,
            );
            let at = m.address - c.start;
            let held = registers[at] * 0x1_0000 + registers[at + 1];
            &&& value_read(o.registry, m.tag_id) matches Ok(v) && v.status == StatusCode::Good && {
                match v.variant {
                    VariantView::UInt32(n) => m.data_type == TagDataType::UInt32 && n == held,
                    VariantView::Int32(n) => m.data_type == TagDataType::Int32 && n as int
                        % 0x1_0000_0000 == held,
                    VariantView::Float(bits) => m.data_type == TagDataType::Float && bits == held,
                    _ => false,
                }
            }
        }),
{
    let c = d.plan()[d.phase->Reading_next];
    let m = d.mappings[c.members[k]];
    let b = bytes_of(own_registers(m, c, registers));
    answer_reaches_every_tag(d, reg, registers, k, now);
    own_bytes(d, reg, registers, k, 0);
    own_bytes(d, reg, registers, k, 1);
    crate::core_model::order_laws::plain_order_keeps_bytes(b);
    registers_are_decoded_as_numbers(m.data_type, b, m.bit_offset);
}

/// A number that a client writes to a writable tag of holding registers is sent to the address of
/// the tag: one register of a 16-bit number, and two of a 32-bit number, the more significant one
/// first.
pub proof fn client_writes_reach_the_registers(
    d: ModbusDriverView,
    reg: RegistryView,
    r: WriteRequestView,
    variant: VariantView,
    i: int,
    now: Timestamp,
)
    requires
        d.phase is Draining,
        d.connected,
        is_first_mapping(d.mappings, r.tag_id, i),
        d.mappings[i].writable,
        d.mappings[i].function == ModbusFunction::HoldingRegisters,
        d.mappings[i].byte_order == WordOrder::ABCD,
        value_written(reg, r.tag_id, Some(variant)) == Ok::<TagValueView, StatusCode>(r.value),
    ensures
        ({
            let o = d.on_event(reg, EventView::Queue(Some(r)), now);
            &&& o.step.action matches ActionView::Write { address, words } && address
                == d.mappings[i].address && (match variant {
                VariantView::UInt16(n) => words.len() == 1 && words[0] == n,
                VariantView::Int16(n) => words.len() == 1 && words[0] == n as int % 0x1_0000,
                VariantView::UInt32(n) => words.len() == 2 && words_number(words) == n,
                VariantView::Int32(n) => words.len() == 2 && words_number(words) == n as int
                    % 0x1_0000_0000,
                VariantView::Float(bits) => words.len() == 2 && words_number(words) == bits,
                VariantView::UInt64(n) => words.len() == 4 && words_number(words) == n,
                VariantView::Int64(n) => words.len() == 4 && words_number(words) == n as int
                    % 0x1_0000_0000_0000_0000,
                VariantView::Double(bits) => words.len() == 4 && words_number(words) == bits,
                _ => true,
            })
        }),
{
    holding_registers_are_written(d, reg, r, i, now);
    plain_words_are_written(r.value);
    if !(r.value is DateTime) {
        words_make_up_the_number(r.value);
    }
}

} // verus!
