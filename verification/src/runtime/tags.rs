//! Conversion of configured tags into definitions and driver mappings.

use crate::core_model::tag_definition::{TagDefinition, TagDefinitionView};
use crate::core_model::tag_value::{TagDataType, WordOrder};
use crate::driver_fins::mapping::{TagMapping, TagMappingView};
use crate::driver_modbus::mapping::{ModbusFunction, ModbusMapping, ModbusMappingView};
use crate::runtime::config::{optional, TagConfig};
use crate::text;
use crate::text::{
    all_digits, blanks_are_trimmed, decimal, decimal_denotes_its_number, digits_are_read,
    digits_value, is_blank, is_digit, lowercase_of, trimmed, trimming_takes_blanks_off, u32_of,
};
use vstd::prelude::*;
use vstd::string::*;

verus! {

/// Why a configured tag cannot be converted.
#[derive(Debug)]
pub struct TagConfigError {
    pub message: String,
}

/// The area code of FINS D memory.
pub const D_AREA: u8 = 0x82;

// ---------------------------------------------------------------------------
// Byte orders and data types
// ---------------------------------------------------------------------------

/// The byte order that a text names; without a text it is the default.
pub open spec fn byte_order_of(s: Option<Seq<char>>) -> Option<WordOrder> {
    match s {
        None => Some(WordOrder::ABCD),
        Some(t) => if t == "ABCD"@ || t == "abcd"@ {
            Some(WordOrder::ABCD)
        } else if t == "BADC"@ || t == "badc"@ {
            Some(WordOrder::BADC)
        } else if t == "CDAB"@ || t == "cdab"@ {
            Some(WordOrder::CDAB)
        } else if t == "DCBA"@ || t == "dcba"@ {
            Some(WordOrder::DCBA)
        } else {
            None
        },
    }
}

/// The message about a byte order that has no such name.
pub open spec fn byte_order_message(s: Seq<char>, context: Seq<char>) -> Seq<char> {
    "Unknown byte_order '"@ + s + "' for "@ + context
        + "; expected one of ABCD, BADC, CDAB, DCBA"@
}

/// The byte order that a text names.
pub fn parse_byte_order(s: Option<&str>, context: &str) -> (r: Result<WordOrder, TagConfigError>)
    ensures
        match r {
            Ok(o) => byte_order_of(optional(s)) == Some(o),
            Err(e) => {
                &&& byte_order_of(optional(s)) is None
                &&& s is Some
                &&& e.message@ == byte_order_message(s->0@, context@)
            },
        },
{
    match s {
        None => Ok(WordOrder::ABCD),
        Some(t) => if text::same(t, "ABCD") || text::same(t, "abcd") {
            Ok(WordOrder::ABCD)
        } else if text::same(t, "BADC") || text::same(t, "badc") {
            Ok(WordOrder::BADC)
        } else if text::same(t, "CDAB") || text::same(t, "cdab") {
            Ok(WordOrder::CDAB)
        } else if text::same(t, "DCBA") || text::same(t, "dcba") {
            Ok(WordOrder::DCBA)
        } else {
            let mut m = text::join3("Unknown byte_order '", t, "' for ");
            m.append(context);
            m.append("; expected one of ABCD, BADC, CDAB, DCBA");
            Err(TagConfigError { message: m })
        },
    }
}

/// The data type with a name in small letters.
pub open spec fn data_type_named(s: Seq<char>) -> Option<TagDataType> {
    if s == "bool"@ {
        Some(TagDataType::Bool)
    } else if s == "int16"@ {
        Some(TagDataType::Int16)
    } else if s == "uint16"@ {
        Some(TagDataType::UInt16)
    } else if s == "int32"@ {
        Some(TagDataType::Int32)
    } else if s == "uint32"@ {
        Some(TagDataType::UInt32)
    } else if s == "int64"@ {
        Some(TagDataType::Int64)
    } else if s == "uint64"@ {
        Some(TagDataType::UInt64)
    } else if s == "float"@ {
        Some(TagDataType::Float)
    } else if s == "double"@ {
        Some(TagDataType::Double)
    } else if s == "string"@ {
        Some(TagDataType::String)
    } else if s == "datetime"@ {
        Some(TagDataType::DateTime)
    } else if s == "bytestring"@ || s == "byte_string"@ {
        Some(TagDataType::ByteString)
    } else {
        None
    }
}

/// The data type with a name in small letters.
pub fn data_type_by_lowercase(s: &str) -> (r: Result<TagDataType, TagConfigError>)
    ensures
        match r {
            Ok(t) => data_type_named(s@) == Some(t),
            Err(e) => data_type_named(s@) is None && e.message@ == "Unsupported data type: "@ + s@,
        },
{
    if text::same(s, "bool") {
        Ok(TagDataType::Bool)
    } else if text::same(s, "int16") {
        Ok(TagDataType::Int16)
    } else if text::same(s, "uint16") {
        Ok(TagDataType::UInt16)
    } else if text::same(s, "int32") {
        Ok(TagDataType::Int32)
    } else if text::same(s, "uint32") {
        Ok(TagDataType::UInt32)
    } else if text::same(s, "int64") {
        Ok(TagDataType::Int64)
    } else if text::same(s, "uint64") {
        Ok(TagDataType::UInt64)
    } else if text::same(s, "float") {
        Ok(TagDataType::Float)
    } else if text::same(s, "double") {
        Ok(TagDataType::Double)
    } else if text::same(s, "string") {
        Ok(TagDataType::String)
    } else if text::same(s, "datetime") {
        Ok(TagDataType::DateTime)
    } else if text::same(s, "bytestring") || text::same(s, "byte_string") {
        Ok(TagDataType::ByteString)
    } else {
        Err(TagConfigError { message: text::join2("Unsupported data type: ", s) })
    }
}

/// The data type that a text names, in capital or small letters.
pub fn parse_data_type(s: &str) -> (r: Result<TagDataType, TagConfigError>)
    ensures
        match r {
            Ok(t) => data_type_named(lowercase_of(s@)) == Some(t),
            Err(e) => {
                &&& data_type_named(lowercase_of(s@)) is None
                &&& e.message@ == "Unsupported data type: "@ + lowercase_of(s@)
            },
        },
{
    data_type_by_lowercase(text::lowercase(s).as_str())
}

/// Why `words` words cannot hold a value of a data type, if they cannot.
pub open spec fn size_fault(data_type: TagDataType, words: u16, name: Seq<char>) -> Option<
    Seq<char>,
> {
    match data_type {
        TagDataType::Float | TagDataType::Int32 | TagDataType::UInt32 => if words < 2 {
            Some(
                "Incompatible word_count "@ + decimal(words as nat) + " for data_type '"@ + name
                    + "' (needs >=2)"@,
            )
        } else {
            None
        },
        TagDataType::Double => if words < 4 {
            Some(
                "Incompatible word_count "@ + decimal(words as nat)
                    + " for data_type 'double' (needs >=4)"@,
            )
        } else {
            None
        },
        _ => None,
    }
}

fn check_size(data_type: TagDataType, words: u16, name: &str) -> (r: Option<TagConfigError>)
    ensures
        match r {
            Some(e) => size_fault(data_type, words, name@) == Some(e.message@),
            None => size_fault(data_type, words, name@) is None,
        },
{
    match data_type {
        TagDataType::Float | TagDataType::Int32 | TagDataType::UInt32 => {
            if words < 2 {
                let n = text::to_decimal(words as u64);
                let mut m = text::join3(
                    "Incompatible word_count ",
                    n.as_str(),
                    " for data_type '",
                );
                m.append(name);
                m.append("' (needs >=2)");
                Some(TagConfigError { message: m })
            } else {
                None
            }
        },
        TagDataType::Double => {
            if words < 4 {
                let n = text::to_decimal(words as u64);
                Some(
                    TagConfigError {
                        message: text::join3(
                            "Incompatible word_count ",
                            n.as_str(),
                            " for data_type 'double' (needs >=4)",
                        ),
                    },
                )
            } else {
                None
            }
        },
        _ => None,
    }
}

/// A text that may be absent, borrowed.
pub fn borrow_text(s: &Option<String>) -> (r: Option<&str>)
    ensures
        optional(r) == optional_view(*s),
{
    match s {
        Some(t) => Some(t.as_str()),
        None => None,
    }
}

/// A text that may be absent, as characters.
pub open spec fn optional_view(s: Option<String>) -> Option<Seq<char>> {
    match s {
        Some(t) => Some(t@),
        None => None,
    }
}

// ---------------------------------------------------------------------------
// Definitions
// ---------------------------------------------------------------------------

/// The definition of a configured tag, or why there is none; `lowered` is the name of its data
/// type in small letters.
pub open spec fn definition_of(t: TagConfig, plc_name: Seq<char>, lowered: Seq<char>) -> Result<
    TagDefinitionView,
    Seq<char>,
> {
    match data_type_named(lowered) {
        None => Err("Unsupported data type: "@ + lowered),
        Some(data_type) => match byte_order_of(optional_view(t.byte_order)) {
            None => Err(byte_order_message(t.byte_order->0@, "tag definition"@)),
            Some(byte_order) => Ok(
                TagDefinitionView {
                    id: t.id@,
                    name: t.name@,
                    address: t.address@,
                    data_type,
                    writable: t.writable,
                    byte_order,
                    stale_after_ms: None,
                    metadata: None,
                    plc_name,
                },
            ),
        },
    }
}

/// The definition of a configured tag, whose data type has the name `lowered` in small letters.
pub fn definition_with_type_name(t: &TagConfig, plc_name: &str, lowered: &str) -> (r: Result<
    TagDefinition,
    TagConfigError,
>)
    ensures
        match r {
            Ok(d) => definition_of(*t, plc_name@, lowered@) == Ok::<TagDefinitionView, Seq<char>>(
                d@,
            ),
            Err(e) => definition_of(*t, plc_name@, lowered@) == Err::<TagDefinitionView, Seq<char>>(
                e.message@,
            ),
        },
{
    let data_type = match data_type_by_lowercase(lowered) {
        Ok(d) => d,
        Err(e) => {
            return Err(e);
        },
    };
    let byte_order = match parse_byte_order(borrow_text(&t.byte_order), "tag definition") {
        Ok(o) => o,
        Err(e) => {
            return Err(e);
        },
    };
    let mut def = TagDefinition::new(
        t.id.as_str(),
        t.name.as_str(),
        t.address.as_str(),
        data_type,
        plc_name,
    );
    def.writable = t.writable;
    def.byte_order = byte_order;
    Ok(def)
}

/// The definition of a configured tag that belongs to the PLC `plc_name`.
pub fn tagconfig_to_definition(t: &TagConfig, plc_name: &str) -> (r: Result<
    TagDefinition,
    TagConfigError,
>)
    ensures
        match r {
            Ok(d) => definition_of(*t, plc_name@, lowercase_of(t.data_type@)) == Ok::<
                TagDefinitionView,
                Seq<char>,
            >(d@),
            Err(e) => definition_of(*t, plc_name@, lowercase_of(t.data_type@)) == Err::<
                TagDefinitionView,
                Seq<char>,
            >(e.message@),
        },
{
    let lowered = text::lowercase(t.data_type.as_str());
    definition_with_type_name(t, plc_name, lowered.as_str())
}

// ---------------------------------------------------------------------------
// FINS mappings
// ---------------------------------------------------------------------------

/// The area and address that a FINS address denotes, or why it denotes none: a number where
/// the area is given, `D<digits>` or digits in the D area elsewhere.
pub open spec fn fins_address(address: Seq<char>, area: Option<u8>) -> Result<
    (u8, u32),
    Seq<char>,
> {
    let addr = trimmed(address);
    if addr.len() == 0 {
        Err("Empty address for FINS mapping"@)
    } else {
        let prefixed = area is None && (addr[0] == 'D' || addr[0] == 'd');
        let number = if prefixed {
            addr.skip(1)
        } else {
            addr
        };
        if prefixed && (number.len() == 0 || !all_digits(number)) {
            Err("Invalid FINS D-address '"@ + addr + "'; expected 'D<digits>'"@)
        } else if area is None && !all_digits(number) {
            Err(
                "Unsupported FINS address pattern '"@ + addr
                    + "'; expected 'D<number>' or '<number>'"@,
            )
        } else {
            match u32_of(number) {
                Some(n) => Ok(
                    (
                        match area {
                            Some(a) => a,
                            None => D_AREA,
                        },
                        n,
                    ),
                ),
                None => Err("Invalid FINS address '"@ + addr + "'"@),
            }
        }
    }
}

/// The area and address that a FINS address denotes.
pub fn parse_fins_address(address: &str, area: Option<u8>) -> (r: Result<
    (u8, u32),
    TagConfigError,
>)
    ensures
        match r {
            Ok(p) => fins_address(address@, area) == Ok::<(u8, u32), Seq<char>>(p),
            Err(e) => fins_address(address@, area) == Err::<(u8, u32), Seq<char>>(e.message@),
        },
{
    let addr = text::trim(address);
    if addr.is_empty() {
        return Err(TagConfigError { message: "Empty address for FINS mapping".to_owned() });
    }
    let n = addr.unicode_len();
    let first = addr.get_char(0);
    let mut number: &str = addr;
    if area.is_none() {
        if first == 'D' || first == 'd' {
            number = addr.substring_char(1, n);
            assert(number@ =~= addr@.skip(1));
            if number.is_empty() || !text::is_digit_run(number) {
                return Err(
                    TagConfigError {
                        message: text::join3(
                            "Invalid FINS D-address '",
                            addr,
                            "'; expected 'D<digits>'",
                        ),
                    },
                );
            }
        } else if !text::is_digit_run(addr) {
            return Err(
                TagConfigError {
                    message: text::join3(
                        "Unsupported FINS address pattern '",
                        addr,
                        "'; expected 'D<number>' or '<number>'",
                    ),
                },
            );
        }
    }
    match text::parse_u32(number) {
        Some(v) => Ok(
            (
                match area {
                    Some(a) => a,
                    None => D_AREA,
                },
                v,
            ),
        ),
        None => Err(
            TagConfigError { message: text::join3("Invalid FINS address '", addr, "'") },
        ),
    }
}

/// The number of words of a configured tag: one where it does not say.
pub open spec fn word_count_of(t: TagConfig) -> u16 {
    match t.word_count {
        Some(n) => n,
        None => 1,
    }
}

/// The data type of a configured tag, whose name in small letters is `lowered`, is known, its words
/// suffice for it, and its byte order is known.
pub open spec fn is_convertible(t: TagConfig, lowered: Seq<char>) -> bool {
    &&& data_type_named(lowered) is Some
    &&& size_fault(data_type_named(lowered)->0, word_count_of(t), t.data_type@) is None
    &&& byte_order_of(optional_view(t.byte_order)) is Some
}

/// The FINS mapping of a configured tag, or why there is none; `lowered` is the name of its
/// data type in small letters.
pub open spec fn fins_mapping_of(t: TagConfig, lowered: Seq<char>) -> Result<
    TagMappingView,
    Seq<char>,
> {
    match fins_address(t.address@, t.area) {
        Err(m) => Err(m),
        Ok(p) => match data_type_named(lowered) {
            None => Err("Unsupported data type: "@ + lowered),
            Some(data_type) => match size_fault(data_type, word_count_of(t), t.data_type@) {
                Some(m) => Err(m),
                None => match byte_order_of(optional_view(t.byte_order)) {
                    None => Err(byte_order_message(t.byte_order->0@, "FINS mapping"@)),
                    Some(byte_order) => Ok(
                        TagMappingView {
                            tag_id: t.id@,
                            area: p.0,
                            address: p.1,
                            bit_offset: 0,
                            word_count: word_count_of(t),
                            writable: t.writable,
                            byte_order,
                            data_type,
                        },
                    ),
                },
            },
        },
    }
}

/// The FINS mapping of a configured tag, whose data type has the name `lowered` in small
/// letters.
pub fn fins_mapping_with_type_name(t: &TagConfig, lowered: &str) -> (r: Result<
    TagMapping,
    TagConfigError,
>)
    ensures
        match r {
            Ok(m) => fins_mapping_of(*t, lowered@) == Ok::<TagMappingView, Seq<char>>(m@),
            Err(e) => fins_mapping_of(*t, lowered@) == Err::<TagMappingView, Seq<char>>(
                e.message@,
            ),
        },
{
    let (area, address): (u8, u32) = match parse_fins_address(t.address.as_str(), t.area) {
        Ok(p) => p,
        Err(e) => {
            return Err(e);
        },
    };
    let word_count: u16 = match t.word_count {
        Some(n) => n,
        None => 1,
    };
    let data_type = match data_type_by_lowercase(lowered) {
        Ok(d) => d,
        Err(e) => {
            return Err(e);
        },
    };
    match check_size(data_type, word_count, t.data_type.as_str()) {
        Some(e) => {
            return Err(e);
        },
        None => {},
    }
    let byte_order = match parse_byte_order(borrow_text(&t.byte_order), "FINS mapping") {
        Ok(o) => o,
        Err(e) => {
            return Err(e);
        },
    };
    Ok(
        TagMapping {
            tag_id: t.id.clone(),
            area,
            address,
            bit_offset: 0,
            word_count,
            writable: t.writable,
            byte_order,
            data_type,
        },
    )
}

/// The FINS mapping of a configured tag.
pub fn tagconfig_to_fins_mapping(t: &TagConfig) -> (r: Result<TagMapping, TagConfigError>)
    ensures
        match r {
            Ok(m) => fins_mapping_of(*t, lowercase_of(t.data_type@)) == Ok::<
                TagMappingView,
                Seq<char>,
            >(m@),
            Err(e) => fins_mapping_of(*t, lowercase_of(t.data_type@)) == Err::<
                TagMappingView,
                Seq<char>,
            >(e.message@),
        },
{
    let lowered = text::lowercase(t.data_type.as_str());
    fins_mapping_with_type_name(t, lowered.as_str())
}

/// Digits that denote an unsigned 32-bit number.
pub open spec fn is_number(digits: Seq<char>) -> bool {
    &&& digits.len() > 0
    &&& all_digits(digits)
    &&& digits_value(digits) <= u32::MAX
}

/// `digits` with blanks around it or none.
pub open spec fn is_plain_form(address: Seq<char>, digits: Seq<char>) -> bool {
    exists|before: Seq<char>, after: Seq<char>|
        is_blank(before) && is_blank(after) && address == #[trigger] (before + digits + after)
}

/// `digits` behind a `D` or `d`, with blanks around it or none.
pub open spec fn is_prefixed_form(address: Seq<char>, digits: Seq<char>) -> bool {
    is_plain_form(address, seq!['D'] + digits) || is_plain_form(address, seq!['d'] + digits)
}

proof fn plain_form_is_read(address: Seq<char>, digits: Seq<char>)
    requires
        is_plain_form(address, digits),
        is_number(digits),
    ensures
        trimmed(address) == digits,
        u32_of(digits) == Some(digits_value(digits) as u32),
        is_digit(digits[0]),
{
    let (before, after) = choose|before: Seq<char>, after: Seq<char>|
        is_blank(before) && is_blank(after) && address == #[trigger] (before + digits + after);
    digits_are_read(before, digits, after);
}

proof fn prefixed_form_is_read(address: Seq<char>, c: char, digits: Seq<char>)
    requires
        c == 'D' || c == 'd',
        is_plain_form(address, seq![c] + digits),
        is_number(digits),
    ensures
        trimmed(address) == seq![c] + digits,
        trimmed(address).skip(1) == digits,
        u32_of(digits) == Some(digits_value(digits) as u32),
{
    let s = seq![c] + digits;
    let (before, after) = choose|before: Seq<char>, after: Seq<char>|
        is_blank(before) && is_blank(after) && address == #[trigger] (before + s + after);
    assert(is_digit(digits[digits.len() - 1]));
    assert(s.last() == digits[digits.len() - 1]);
    blanks_are_trimmed(before, s, after);
    assert(s.skip(1) =~= digits);
    digits_are_read(Seq::empty(), digits, Seq::empty());
}

/// Without an area, `D<n>`, `d<n>` and `<n>`, with blanks around them or not, denote address n in
/// the D area. With an area, `<n>` denotes address n there, and `D<n>` and `d<n>` denote nothing.
pub proof fn fins_address_forms(address: Seq<char>, digits: Seq<char>, area: u8)
    requires
        is_number(digits),
    ensures
        is_plain_form(address, digits) || is_prefixed_form(address, digits) ==> fins_address(
            address,
            None,
        ) == Ok::<(u8, u32), Seq<char>>((0x82u8, digits_value(digits) as u32)),
        is_plain_form(address, digits) ==> fins_address(address, Some(area)) == Ok::<
            (u8, u32),
            Seq<char>,
        >((area, digits_value(digits) as u32)),
        is_prefixed_form(address, digits) ==> fins_address(address, Some(area)) is Err,
{
    if is_plain_form(address, digits) {
        plain_form_is_read(address, digits);
    }
    if is_plain_form(address, seq!['D'] + digits) {
        prefixed_form_is_read(address, 'D', digits);
    }
    if is_plain_form(address, seq!['d'] + digits) {
        prefixed_form_is_read(address, 'd', digits);
    }
    if is_prefixed_form(address, digits) {
        let s = trimmed(address);
        assert(!is_digit(s[0]));
    }
}

/// Without an area, an address that has none of the forms `D<n>`, `d<n>` and `<n>` is refused.
pub proof fn other_fins_addresses_are_refused(address: Seq<char>)
    requires
        forall|digits: Seq<char>|
            is_number(digits) ==> !is_plain_form(address, digits) && !(#[trigger] is_prefixed_form(
                address,
                digits,
            )),
    ensures
        fins_address(address, None) is Err,
{
    if fins_address(address, None) is Ok {
        let addr = trimmed(address);
        let (before, after) = trimming_takes_blanks_off(address);
        let prefixed = addr[0] == 'D' || addr[0] == 'd';
        let number = if prefixed {
            addr.skip(1)
        } else {
            addr
        };
        assert(is_digit(number[0]));
        assert(is_number(number));
        if prefixed {
            let c = addr[0];
            assert(addr =~= seq![c] + number);
            assert(address == before + (seq![c] + number) + after);
            assert(is_plain_form(address, seq![c] + number));
            assert(is_prefixed_form(address, number));
        } else {
            assert(address == before + number + after);
            assert(is_plain_form(address, number));
            assert(!is_prefixed_form(address, number));
        }
    }
}

/// Two configured tags without an area that differ only in which of the forms `D<n>`, `d<n>` and
/// `<n>` their address has give one mapping, in the D area at address n. Where the data type is
/// known, the words suffice for it and the byte order is known, there is such a mapping.
pub proof fn fins_address_forms_give_one_mapping(
    t: TagConfig,
    u: TagConfig,
    digits: Seq<char>,
    lowered: Seq<char>,
)
    requires
        is_number(digits),
        t.area is None,
        u == (TagConfig { address: u.address, ..t }),
        is_plain_form(t.address@, digits) || is_prefixed_form(t.address@, digits),
        is_plain_form(u.address@, digits) || is_prefixed_form(u.address@, digits),
    ensures
        fins_mapping_of(t, lowered) == fins_mapping_of(u, lowered),
        fins_mapping_of(t, lowered) matches Ok(m) ==> m.area == 0x82 && m.address == digits_value(
            digits,
        ),
        is_convertible(t, lowered) ==> fins_mapping_of(t, lowered) is Ok,
{
    fins_address_forms(t.address@, digits, 0);
    fins_address_forms(u.address@, digits, 0);
}

/// With an area, a configured tag with the address `<n>` is mapped to address n in that area, and
/// one with the address `D<n>` or `d<n>` is refused.
pub proof fn explicit_area_takes_plain_addresses(
    t: TagConfig,
    digits: Seq<char>,
    lowered: Seq<char>,
)
    requires
        is_number(digits),
        t.area is Some,
    ensures
        is_plain_form(t.address@, digits) && is_convertible(t, lowered) ==> (fins_mapping_of(
            t,
            lowered,
        ) matches Ok(m) && m.area == t.area->0 && m.address == digits_value(digits)),
        is_prefixed_form(t.address@, digits) ==> fins_mapping_of(t, lowered) is Err,
{
    fins_address_forms(t.address@, digits, t.area->0);
}

// ---------------------------------------------------------------------------
// Modbus mappings
// ---------------------------------------------------------------------------

/// The register offset that a Modbus address denotes, or why it denotes none: offsets as they
/// are, and human notation from 40001 on, which is offset 0.
pub open spec fn modbus_address(address: Seq<char>) -> Result<u16, Seq<char>> {
    let addr = trimmed(address);
    match u32_of(addr) {
        None => Err("Invalid Modbus address '"@ + addr + "'"@),
        Some(raw) => {
            let offset = if raw >= 40001 {
                raw - 40001
            } else {
                raw as int
            };
            if offset > u16::MAX {
                Err(
                    "Modbus address '"@ + addr + "' normalized to "@ + decimal(offset as nat)
                        + " exceeds u16 range"@,
                )
            } else {
                Ok(offset as u16)
            }
        },
    }
}

/// The register offset that a Modbus address denotes.
pub fn parse_modbus_address(address: &str) -> (r: Result<u16, TagConfigError>)
    ensures
        match r {
            Ok(a) => modbus_address(address@) == Ok::<u16, Seq<char>>(a),
            Err(e) => modbus_address(address@) == Err::<u16, Seq<char>>(e.message@),
        },
{
    let addr = text::trim(address);
    let raw: u32 = match text::parse_u32(addr) {
        Some(n) => n,
        None => {
            return Err(
                TagConfigError { message: text::join3("Invalid Modbus address '", addr, "'") },
            );
        },
    };
    let offset: u32 = if raw >= 40001 {
        raw - 40001
    } else {
        raw
    };
    if offset > 0xFFFF {
        let mut m = text::join3("Modbus address '", addr, "' normalized to ");
        m.append(text::to_decimal(offset as u64).as_str());
        m.append(" exceeds u16 range");
        return Err(TagConfigError { message: m });
    }
    Ok(offset as u16)
}

/// The Modbus mapping of a configured tag, or why there is none; `lowered` is the name of its
/// data type in small letters. Booleans are coils, all else holding registers.
pub open spec fn modbus_mapping_of(t: TagConfig, lowered: Seq<char>) -> Result<
    ModbusMappingView,
    Seq<char>,
> {
    match modbus_address(t.address@) {
        Err(m) => Err(m),
        Ok(address) => match data_type_named(lowered) {
            None => Err("Unsupported data type: "@ + lowered),
            Some(data_type) => match size_fault(data_type, word_count_of(t), t.data_type@) {
                Some(m) => Err(m),
                None => match byte_order_of(optional_view(t.byte_order)) {
                    None => Err(byte_order_message(t.byte_order->0@, "Modbus mapping"@)),
                    Some(byte_order) => Ok(
                        ModbusMappingView {
                            tag_id: t.id@,
                            data_type,
                            address,
                            quantity: word_count_of(t),
                            function: if data_type == TagDataType::Bool {
                                ModbusFunction::Coils
                            } else {
                                ModbusFunction::HoldingRegisters
                            },
                            bit_offset: 0,
                            writable: t.writable,
                            byte_order,
                        },
                    ),
                },
            },
        },
    }
}

/// The Modbus mapping of a configured tag, whose data type has the name `lowered` in small
/// letters.
pub fn modbus_mapping_with_type_name(t: &TagConfig, lowered: &str) -> (r: Result<
    ModbusMapping,
    TagConfigError,
>)
    ensures
        match r {
            Ok(m) => modbus_mapping_of(*t, lowered@) == Ok::<ModbusMappingView, Seq<char>>(m@),
            Err(e) => modbus_mapping_of(*t, lowered@) == Err::<ModbusMappingView, Seq<char>>(
                e.message@,
            ),
        },
{
    let address: u16 = match parse_modbus_address(t.address.as_str()) {
        Ok(a) => a,
        Err(e) => {
            return Err(e);
        },
    };
    let quantity: u16 = match t.word_count {
        Some(n) => n,
        None => 1,
    };
    let data_type = match data_type_by_lowercase(lowered) {
        Ok(d) => d,
        Err(e) => {
            return Err(e);
        },
    };
    let function = match data_type {
        TagDataType::Bool => ModbusFunction::Coils,
        _ => ModbusFunction::HoldingRegisters,
    };
    match check_size(data_type, quantity, t.data_type.as_str()) {
        Some(e) => {
            return Err(e);
        },
        None => {},
    }
    let byte_order = match parse_byte_order(borrow_text(&t.byte_order), "Modbus mapping") {
        Ok(o) => o,
        Err(e) => {
            return Err(e);
        },
    };
    Ok(
        ModbusMapping {
            tag_id: t.id.clone(),
            data_type,
            address,
            quantity,
            function,
            bit_offset: 0,
            writable: t.writable,
            byte_order,
        },
    )
}

/// The Modbus mapping of a configured tag.
pub fn tagconfig_to_modbus_mapping(t: &TagConfig) -> (r: Result<ModbusMapping, TagConfigError>)
    ensures
        match r {
            Ok(m) => modbus_mapping_of(*t, lowercase_of(t.data_type@)) == Ok::<
                ModbusMappingView,
                Seq<char>,
            >(m@),
            Err(e) => modbus_mapping_of(*t, lowercase_of(t.data_type@)) == Err::<
                ModbusMappingView,
                Seq<char>,
            >(e.message@),
        },
{
    let lowered = text::lowercase(t.data_type.as_str());
    modbus_mapping_with_type_name(t, lowered.as_str())
}

/// The offset n and the notation 40001 + n denote one register, with blanks around them or not.
pub proof fn modbus_address_forms(address: Seq<char>, n: u32)
    requires
        n <= 40000,
        is_plain_form(address, decimal(n as nat)) || is_plain_form(
            address,
            decimal((40001 + n) as nat),
        ),
    ensures
        modbus_address(address) == Ok::<u16, Seq<char>>(n as u16),
{
    let offset = decimal(n as nat);
    let notation = decimal((40001 + n) as nat);
    decimal_denotes_its_number(n as nat);
    decimal_denotes_its_number((40001 + n) as nat);
    if is_plain_form(address, offset) {
        plain_form_is_read(address, offset);
    } else {
        plain_form_is_read(address, notation);
    }
}

/// Two configured tags that differ only in that the address of one is the offset n and that of the
/// other 40001 + n give one mapping. Where the data type is known, the words suffice for it and the
/// byte order is known, it is a mapping at address n, of coils for a boolean and of holding
/// registers else, with as many of them as the tag has words.
pub proof fn modbus_address_forms_give_one_mapping(
    t: TagConfig,
    u: TagConfig,
    n: u32,
    lowered: Seq<char>,
)
    requires
        n <= 40000,
        u == (TagConfig { address: u.address, ..t }),
        is_plain_form(t.address@, decimal(n as nat)),
        is_plain_form(u.address@, decimal((40001 + n) as nat)),
    ensures
        modbus_mapping_of(t, lowered) == modbus_mapping_of(u, lowered),
        is_convertible(t, lowered) ==> (modbus_mapping_of(t, lowered) matches Ok(m) && {
            &&& m.address == n
            &&& m.quantity == word_count_of(t)
            &&& m.function == (if data_type_named(lowered) == Some(TagDataType::Bool) {
                ModbusFunction::Coils
            } else {
                ModbusFunction::HoldingRegisters
            })
        }),
{
    modbus_address_forms(t.address@, n);
    modbus_address_forms(u.address@, n);
}

} // verus!
