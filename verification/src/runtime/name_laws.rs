//! What the names in a configuration denote, and what becomes of configured tags.

use crate::core_model::tag_definition::TagDefinitionView;
use crate::core_model::tag_value::{TagDataType, WordOrder};
use crate::driver_fins::mapping::TagMappingView;
use crate::driver_modbus::mapping::{ModbusFunction, ModbusMappingView};
use crate::opcua_server::config::{SecurityMode, SecurityPolicy, WriteMode};
use crate::runtime::config::{
    cycle_fault, format_named, security_mode_of, security_policy_of, write_mode_of, PlcConfig,
    TagConfig,
};
use crate::runtime::tags::{
    byte_order_of, data_type_named, definition_of, fins_address, fins_mapping_of, is_plain_form,
    modbus_address, modbus_mapping_of, optional_view, size_fault, word_count_of,
};
use crate::text::{
    blanks_are_trimmed, decimal, decimal_denotes_its_number, is_blank, is_digit, trimmed,
    trimmed_is_empty_iff_blank, u32_of,
};
use vstd::prelude::*;
use vstd::string::*;

verus! {

// ---------------------------------------------------------------------------
// Data types and byte orders
// ---------------------------------------------------------------------------

proof fn data_type_names()
    ensures
        "bool"@ == seq!['b', 'o', 'o', 'l'],
        "int16"@ == seq!['i', 'n', 't', '1', '6'],
        "uint16"@ == seq!['u', 'i', 'n', 't', '1', '6'],
        "int32"@ == seq!['i', 'n', 't', '3', '2'],
        "uint32"@ == seq!['u', 'i', 'n', 't', '3', '2'],
        "int64"@ == seq!['i', 'n', 't', '6', '4'],
        "uint64"@ == seq!['u', 'i', 'n', 't', '6', '4'],
        "float"@ == seq!['f', 'l', 'o', 'a', 't'],
        "double"@ == seq!['d', 'o', 'u', 'b', 'l', 'e'],
        "string"@ == seq!['s', 't', 'r', 'i', 'n', 'g'],
        "datetime"@ == seq!['d', 'a', 't', 'e', 't', 'i', 'm', 'e'],
        "bytestring"@.len() == 10,
        "byte_string"@.len() == 11,
{
    reveal_strlit("bool");
    reveal_strlit("int16");
    reveal_strlit("uint16");
    reveal_strlit("int32");
    reveal_strlit("uint32");
    reveal_strlit("int64");
    reveal_strlit("uint64");
    reveal_strlit("float");
    reveal_strlit("double");
    reveal_strlit("string");
    reveal_strlit("datetime");
    reveal_strlit("bytestring");
    reveal_strlit("byte_string");
    assert("bool"@ =~= seq!['b', 'o', 'o', 'l']);
    assert("int16"@ =~= seq!['i', 'n', 't', '1', '6']);
    assert("uint16"@ =~= seq!['u', 'i', 'n', 't', '1', '6']);
    assert("int32"@ =~= seq!['i', 'n', 't', '3', '2']);
    assert("uint32"@ =~= seq!['u', 'i', 'n', 't', '3', '2']);
    assert("int64"@ =~= seq!['i', 'n', 't', '6', '4']);
    assert("uint64"@ =~= seq!['u', 'i', 'n', 't', '6', '4']);
    assert("float"@ =~= seq!['f', 'l', 'o', 'a', 't']);
    assert("double"@ =~= seq!['d', 'o', 'u', 'b', 'l', 'e']);
    assert("string"@ =~= seq!['s', 't', 'r', 'i', 'n', 'g']);
    assert("datetime"@ =~= seq!['d', 'a', 't', 'e', 't', 'i', 'm', 'e']);
}

proof fn data_type_names_differ()
    ensures
        "bool"@.len() == 4,
        "int16"@.len() == 5 && "int32"@.len() == 5 && "int64"@.len() == 5 && "float"@.len() == 5,
        "uint16"@.len() == 6 && "uint32"@.len() == 6 && "uint64"@.len() == 6,
        "double"@.len() == 6 && "string"@.len() == 6,
        "datetime"@.len() == 8 && "bytestring"@.len() == 10 && "byte_string"@.len() == 11,
        "int16"@ != "int32"@ && "int16"@ != "int64"@ && "int16"@ != "float"@,
        "int32"@ != "int64"@ && "int32"@ != "float"@ && "int64"@ != "float"@,
        "uint16"@ != "uint32"@ && "uint16"@ != "uint64"@ && "uint16"@ != "double"@ && "uint16"@
            != "string"@,
        "uint32"@ != "uint64"@ && "uint32"@ != "double"@ && "uint32"@ != "string"@,
        "uint64"@ != "double"@ && "uint64"@ != "string"@ && "double"@ != "string"@,
{
    data_type_names();
    assert("int16"@[3] == '1' && "int32"@[3] == '3' && "int64"@[3] == '6' && "float"@[3] == 'a');
    assert("uint16"@[4] == '1' && "uint32"@[4] == '3' && "uint64"@[4] == '6');
    assert("double"@[4] == 'l' && "string"@[4] == 'n');
}

/// Each of the twelve data types is what its own name denotes.
pub proof fn data_types_are_denoted_by_their_names()
    ensures
        data_type_named("bool"@) == Some(TagDataType::Bool),
        data_type_named("int16"@) == Some(TagDataType::Int16),
        data_type_named("uint16"@) == Some(TagDataType::UInt16),
        data_type_named("int32"@) == Some(TagDataType::Int32),
        data_type_named("uint32"@) == Some(TagDataType::UInt32),
        data_type_named("int64"@) == Some(TagDataType::Int64),
        data_type_named("uint64"@) == Some(TagDataType::UInt64),
        data_type_named("float"@) == Some(TagDataType::Float),
        data_type_named("double"@) == Some(TagDataType::Double),
        data_type_named("string"@) == Some(TagDataType::String),
        data_type_named("datetime"@) == Some(TagDataType::DateTime),
        data_type_named("bytestring"@) == Some(TagDataType::ByteString),
        data_type_named("byte_string"@) == Some(TagDataType::ByteString),
{
    data_type_names_differ();
}

/// The name of a data type.
pub open spec fn plain_name(t: TagDataType) -> Seq<char> {
    match t {
        TagDataType::Bool => "bool"@,
        TagDataType::Int16 => "int16"@,
        TagDataType::UInt16 => "uint16"@,
        TagDataType::Int32 => "int32"@,
        TagDataType::UInt32 => "uint32"@,
        TagDataType::Int64 => "int64"@,
        TagDataType::UInt64 => "uint64"@,
        TagDataType::Float => "float"@,
        TagDataType::Double => "double"@,
        TagDataType::String => "string"@,
        TagDataType::DateTime => "datetime"@,
        TagDataType::ByteString => "bytestring"@,
    }
}

/// A text denotes a data type exactly where it is its name, or the second name of byte strings;
/// so different data types are denoted by different texts.
pub proof fn only_names_denote_data_types(s: Seq<char>, t: TagDataType)
    ensures
        data_type_named(s) == Some(t) <==> s == plain_name(t) || (t == TagDataType::ByteString && s
            == "byte_string"@),
{
    data_types_are_denoted_by_their_names();
}

/// The four byte orders are denoted by their letters, in capitals or in small letters, and the
/// first one by nothing at all; no other text denotes one.
pub proof fn byte_orders_are_denoted_by_their_letters(s: Seq<char>)
    ensures
        byte_order_of(None) == Some(WordOrder::ABCD),
        byte_order_of(Some(s)) == Some(WordOrder::ABCD) <==> s == "ABCD"@ || s == "abcd"@,
        byte_order_of(Some(s)) == Some(WordOrder::BADC) <==> s == "BADC"@ || s == "badc"@,
        byte_order_of(Some(s)) == Some(WordOrder::CDAB) <==> s == "CDAB"@ || s == "cdab"@,
        byte_order_of(Some(s)) == Some(WordOrder::DCBA) <==> s == "DCBA"@ || s == "dcba"@,
{
    reveal_strlit("ABCD");
    reveal_strlit("BADC");
    reveal_strlit("CDAB");
    reveal_strlit("DCBA");
    reveal_strlit("abcd");
    reveal_strlit("badc");
    reveal_strlit("cdab");
    reveal_strlit("dcba");
    assert("ABCD"@[0] == 'A' && "BADC"@[0] == 'B' && "CDAB"@[0] == 'C' && "DCBA"@[0] == 'D');
    assert("abcd"@[0] == 'a' && "badc"@[0] == 'b' && "cdab"@[0] == 'c' && "dcba"@[0] == 'd');
}

/// A number of two words, and one of four, needs as many; other data types have no least number of
/// words.
pub proof fn words_must_suffice(data_type: TagDataType, words: u16, name: Seq<char>)
    ensures
        size_fault(data_type, words, name) is None <==> {
            &&& data_type == TagDataType::Float || data_type == TagDataType::Int32 || data_type
                == TagDataType::UInt32 ==> words >= 2
            &&& data_type == TagDataType::Double ==> words >= 4
        },
{
}

// ---------------------------------------------------------------------------
// Configured tags
// ---------------------------------------------------------------------------

/// A configured tag is defined with its own id, name, address and access, the type and byte order
/// that its texts denote, and its PLC; without a staleness threshold and metadata. There is a
/// definition exactly where both texts denote something.
pub proof fn tags_are_defined_as_configured(t: TagConfig, plc: Seq<char>, lowered: Seq<char>)
    ensures
        definition_of(t, plc, lowered) is Ok <==> data_type_named(lowered) is Some
            && byte_order_of(optional_view(t.byte_order)) is Some,
        definition_of(t, plc, lowered) matches Ok(d) ==> {
            &&& d.id == t.id@
            &&& d.name == t.name@
            &&& d.address == t.address@
            &&& Some(d.data_type) == data_type_named(lowered)
            &&& d.writable == t.writable
            &&& Some(d.byte_order) == byte_order_of(optional_view(t.byte_order))
            &&& d.stale_after_ms is None
            &&& d.metadata is None
            &&& d.plc_name == plc
        },
{
}

/// A configured tag has one word where it does not say how many.
pub proof fn one_word_by_default(t: TagConfig)
    ensures
        t.word_count is None ==> word_count_of(t) == 1,
        t.word_count matches Some(n) ==> word_count_of(t) == n,
{
}

/// A configured tag is mapped for FINS with its own id, words and access at bit 0 of the area and
/// address that its address denotes, by the type and byte order that its texts denote. There is a
/// mapping exactly where all of these denote something and the words suffice.
pub proof fn tags_are_mapped_for_fins(t: TagConfig, lowered: Seq<char>)
    ensures
        fins_mapping_of(t, lowered) is Ok <==> {
            &&& fins_address(t.address@, t.area) is Ok
            &&& data_type_named(lowered) is Some
            &&& size_fault(data_type_named(lowered)->0, word_count_of(t), t.data_type@) is None
            &&& byte_order_of(optional_view(t.byte_order)) is Some
        },
        fins_mapping_of(t, lowered) matches Ok(m) ==> {
            &&& m.tag_id == t.id@
            &&& m.bit_offset == 0
            &&& m.word_count == word_count_of(t)
            &&& m.writable == t.writable
            &&& Ok::<(u8, u32), Seq<char>>((m.area, m.address)) == fins_address(t.address@, t.area)
            &&& Some(m.data_type) == data_type_named(lowered)
            &&& Some(m.byte_order) == byte_order_of(optional_view(t.byte_order))
        },
{
}

/// A configured tag is mapped for Modbus with its own id and access at bit 0 of the offset that its
/// address denotes, by the type and byte order that its texts denote: a boolean to coils, anything
/// else to holding registers, as many as it has words.
pub proof fn tags_are_mapped_for_modbus(t: TagConfig, lowered: Seq<char>)
    ensures
        modbus_mapping_of(t, lowered) is Ok <==> {
            &&& modbus_address(t.address@) is Ok
            &&& data_type_named(lowered) is Some
            &&& size_fault(data_type_named(lowered)->0, word_count_of(t), t.data_type@) is None
            &&& byte_order_of(optional_view(t.byte_order)) is Some
        },
        modbus_mapping_of(t, lowered) matches Ok(m) ==> {
            &&& m.tag_id == t.id@
            &&& m.bit_offset == 0
            &&& m.quantity == word_count_of(t)
            &&& m.writable == t.writable
            &&& Ok::<u16, Seq<char>>(m.address) == modbus_address(t.address@)
            &&& Some(m.data_type) == data_type_named(lowered)
            &&& m.function == ModbusFunction::Coils <==> lowered == "bool"@
            &&& m.function == ModbusFunction::HoldingRegisters <==> lowered != "bool"@
            &&& Some(m.byte_order) == byte_order_of(optional_view(t.byte_order))
        },
{
    only_names_denote_data_types(lowered, TagDataType::Bool);
}

/// A number that stands for a Modbus address, with blanks around it or not, denotes itself up to
/// 40000; from 40001 on it denotes the offset behind 40001, as far as sixteen bits hold it, and
/// beyond that nothing.
pub proof fn modbus_addresses(address: Seq<char>, n: u32)
    requires
        is_plain_form(address, decimal(n as nat)),
    ensures
        n <= 40000 ==> modbus_address(address) == Ok::<u16, Seq<char>>(n as u16),
        40001 <= n <= 105536 ==> modbus_address(address) == Ok::<u16, Seq<char>>(
            (n - 40001) as u16,
        ),
        n > 105536 ==> modbus_address(address) is Err,
{
    let digits = decimal(n as nat);
    decimal_denotes_its_number(n as nat);
    let (before, after) = choose|before: Seq<char>, after: Seq<char>|
        is_blank(before) && is_blank(after) && address == #[trigger] (before + digits + after);
    assert(is_digit(digits[0]));
    assert(is_digit(digits[digits.len() - 1]));
    blanks_are_trimmed(before, digits, after);
    assert(trimmed(address) == digits);
    assert(u32_of(digits) == Some(n));
}

/// A text that holds no number denotes no Modbus address.
pub proof fn other_texts_are_no_modbus_address(address: Seq<char>)
    requires
        u32_of(trimmed(address)) is None,
    ensures
        modbus_address(address) is Err,
{
}

// ---------------------------------------------------------------------------
// Settings
// ---------------------------------------------------------------------------

/// The two write modes are denoted by their names, and the confirmed one by an empty text; no
/// other text denotes one.
pub proof fn write_modes_are_denoted_by_their_names(s: Seq<char>)
    ensures
        write_mode_of(s) == Some(WriteMode::QueuedAck) <==> s == "QueuedAck"@,
        write_mode_of(s) == Some(WriteMode::ConfirmedAck) <==> s == "ConfirmedAck"@ || s
            == Seq::<char>::empty(),
{
    reveal_strlit("QueuedAck");
    reveal_strlit("ConfirmedAck");
    reveal_strlit("");
    assert(""@ =~= Seq::<char>::empty());
    assert("QueuedAck"@.len() == 9 && "ConfirmedAck"@.len() == 12);
}

/// The three security modes are denoted by their names, and no security also by an empty text and
/// by nothing at all; no other text denotes one.
pub proof fn security_modes_are_denoted_by_their_names(s: Seq<char>)
    ensures
        security_mode_of(None) == Some(SecurityMode::NoSecurity),
        security_mode_of(Some(s)) == Some(SecurityMode::NoSecurity) <==> s == "None"@ || s
            == Seq::<char>::empty(),
        security_mode_of(Some(s)) == Some(SecurityMode::Sign) <==> s == "Sign"@,
        security_mode_of(Some(s)) == Some(SecurityMode::SignAndEncrypt) <==> s
            == "SignAndEncrypt"@,
{
    reveal_strlit("None");
    reveal_strlit("Sign");
    reveal_strlit("SignAndEncrypt");
    reveal_strlit("");
    assert(""@ =~= Seq::<char>::empty());
    assert("None"@[0] == 'N' && "Sign"@[0] == 'S');
    assert("None"@.len() == 4 && "Sign"@.len() == 4 && "SignAndEncrypt"@.len() == 14);
}

/// The four security policies are denoted by their names, and no policy also by an empty text and
/// by nothing at all; no other text denotes one.
pub proof fn security_policies_are_denoted_by_their_names(s: Seq<char>)
    ensures
        security_policy_of(None) == Some(SecurityPolicy::NoSecurity),
        security_policy_of(Some(s)) == Some(SecurityPolicy::NoSecurity) <==> s == "None"@ || s
            == Seq::<char>::empty(),
        security_policy_of(Some(s)) == Some(SecurityPolicy::Basic128Rsa15) <==> s
            == "Basic128Rsa15"@,
        security_policy_of(Some(s)) == Some(SecurityPolicy::Basic256) <==> s == "Basic256"@,
        security_policy_of(Some(s)) == Some(SecurityPolicy::Basic256Sha256) <==> s
            == "Basic256Sha256"@,
{
    reveal_strlit("None");
    reveal_strlit("Basic128Rsa15");
    reveal_strlit("Basic256");
    reveal_strlit("Basic256Sha256");
    reveal_strlit("");
    assert(""@ =~= Seq::<char>::empty());
    assert("None"@.len() == 4 && "Basic256"@.len() == 8);
    assert("Basic128Rsa15"@.len() == 13 && "Basic256Sha256"@.len() == 14);
}

/// A file with the extension `toml` is TOML, one with `yaml` or `yml` is YAML, and any other is
/// neither.
pub proof fn formats_are_denoted_by_their_extension(s: Seq<char>)
    ensures
        format_named(s) is Toml <==> s == "toml"@,
        format_named(s) is Yaml <==> s == "yaml"@ || s == "yml"@,
{
    reveal_strlit("toml");
    reveal_strlit("yaml");
    reveal_strlit("yml");
    assert("toml"@[0] == 't' && "yaml"@[0] == 'y' && "yml"@[0] == 'y');
}

/// Poll cycles are accepted exactly where none is shorter than ten milliseconds.
pub proof fn cycles_take_ten_milliseconds(plcs: Seq<PlcConfig>)
    ensures
        cycle_fault(plcs) is None <==> forall|i: int|
            0 <= i < plcs.len() ==> (#[trigger] plcs[i]).cycle_ms >= 10,
    decreases plcs.len(),
{
    if plcs.len() > 0 {
        let front = plcs.drop_last();
        cycles_take_ten_milliseconds(front);
        let n = front.len() as int;
        assert(plcs[n] == plcs.last());
        if forall|i: int| 0 <= i < plcs.len() ==> (#[trigger] plcs[i]).cycle_ms >= 10 {
            assert forall|i: int| 0 <= i < front.len() implies (
            #[trigger] front[i]).cycle_ms >= 10 by {
                assert(front[i] == plcs[i]);
            }
        }
        if cycle_fault(plcs) is None {
            assert forall|i: int| 0 <= i < plcs.len() implies (
            #[trigger] plcs[i]).cycle_ms >= 10 by {
                if i < n {
                    assert(front[i] == plcs[i]);
                }
            }
        }
    }
}

// ---------------------------------------------------------------------------
// What is told of wrong texts
// ---------------------------------------------------------------------------

/// What is told of a configured tag names the text that denotes nothing: its data type first, its
/// byte order next.
pub proof fn wrong_texts_of_tags_are_told(t: TagConfig, plc: Seq<char>, lowered: Seq<char>)
    ensures
        data_type_named(lowered) is None ==> definition_of(t, plc, lowered) == Err::<
            TagDefinitionView,
            Seq<char>,
        >("Unsupported data type: "@ + lowered),
        data_type_named(lowered) is Some && byte_order_of(optional_view(t.byte_order)) is None
            ==> definition_of(t, plc, lowered) == Err::<TagDefinitionView, Seq<char>>(
            "Unknown byte_order '"@ + t.byte_order->0@ + "' for "@ + "tag definition"@
                + "; expected one of ABCD, BADC, CDAB, DCBA"@,
        ),
{
}

/// What is told of too few words names their number and the data type.
pub proof fn too_few_words_are_told(data_type: TagDataType, words: u16, name: Seq<char>)
    ensures
        (data_type == TagDataType::Float || data_type == TagDataType::Int32 || data_type
            == TagDataType::UInt32) && words < 2 ==> size_fault(data_type, words, name) == Some(
            "Incompatible word_count "@ + decimal(words as nat) + " for data_type '"@ + name
                + "' (needs >=2)"@,
        ),
        data_type == TagDataType::Double && words < 4 ==> size_fault(data_type, words, name) == Some(
            "Incompatible word_count "@ + decimal(words as nat)
                + " for data_type 'double' (needs >=4)"@,
        ),
{
}

/// What is told of a tag without a mapping is the first thing that is wrong: the address, the data
/// type, the number of words, the byte order.
pub proof fn unmapped_tags_are_told(t: TagConfig, lowered: Seq<char>)
    ensures
        fins_address(t.address@, t.area) matches Err(e) ==> fins_mapping_of(t, lowered) == Err::<
            TagMappingView,
            Seq<char>,
        >(e),
        fins_address(t.address@, t.area) is Ok && data_type_named(lowered) is None
            ==> fins_mapping_of(t, lowered) == Err::<TagMappingView, Seq<char>>(
            "Unsupported data type: "@ + lowered,
        ),
        modbus_address(t.address@) matches Err(e) ==> modbus_mapping_of(t, lowered) == Err::<
            ModbusMappingView,
            Seq<char>,
        >(e),
        modbus_address(t.address@) is Ok && data_type_named(lowered) is None ==> modbus_mapping_of(
            t,
            lowered,
        ) == Err::<ModbusMappingView, Seq<char>>("Unsupported data type: "@ + lowered),
{
}

/// What is told of an address that denotes nothing quotes it without the blanks around it.
pub proof fn wrong_addresses_are_told(address: Seq<char>)
    ensures
        is_blank(address) ==> fins_address(address, None) == Err::<(u8, u32), Seq<char>>(
            "Empty address for FINS mapping"@,
        ),
        u32_of(trimmed(address)) is None ==> modbus_address(address) == Err::<u16, Seq<char>>(
            "Invalid Modbus address '"@ + trimmed(address) + "'"@,
        ),
{
    trimmed_is_empty_iff_blank(address);
}

/// The first PLC with a cycle below ten milliseconds is told.
pub proof fn short_cycles_are_told(plcs: Seq<PlcConfig>, k: int)
    requires
        0 <= k < plcs.len(),
        plcs[k].cycle_ms < 10,
        forall|i: int| 0 <= i < k ==> (#[trigger] plcs[i]).cycle_ms >= 10,
    ensures
        cycle_fault(plcs) == Some(
            "Invalid cycle_ms for "@ + plcs[k].name@ + ": "@ + decimal(plcs[k].cycle_ms as nat)
                + " (must be >= 10)"@,
        ),
    decreases plcs.len(),
{
    let front = plcs.drop_last();
    if k < front.len() {
        assert(front[k] == plcs[k]);
        short_cycles_are_told(front, k);
    } else {
        assert(plcs.last() == plcs[k]);
        cycles_take_ten_milliseconds(front);
        assert forall|i: int| 0 <= i < front.len() implies (
        #[trigger] front[i]).cycle_ms >= 10 by {
            assert(front[i] == plcs[i]);
        }
    }
}

} // verus!
