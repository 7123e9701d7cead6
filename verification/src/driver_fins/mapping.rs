//! FINS per-tag mappings.

use crate::core_model::tag_value::{TagDataType, WordOrder};
use vstd::prelude::*;
use vstd::string::*;

verus! {

/// Word count of single-word mappings, used when the configuration omits it.
pub fn default_word_count() -> (r: u16)
    ensures
        r == 1,
{
    1
}

/// Bit offset (0) used when the configuration omits it.
pub fn default_bit_offset() -> (r: u8)
    ensures
        r == 0,
{
    0
}

/// How a tag maps to a FINS memory area and address.
#[derive(Debug)]
pub struct TagMapping {
    /// Id of the tag.
    pub tag_id: String,
    /// FINS memory area code, e.g. 0x82 for the D area.
    pub area: u8,
    /// Word address within the memory area.
    pub address: u32,
    /// Bit offset inside a word (0-15). Use `0` for word-aligned values.
    pub bit_offset: u8,
    /// Number of 16-bit words to read/write for this tag.
    pub word_count: u16,
    /// Whether this mapping allows writes.
    pub writable: bool,
    /// Word order for multi-word values.
    pub byte_order: WordOrder,
    /// Data type used for decoding.
    pub data_type: TagDataType,
}

/// What a [`TagMapping`] says.
#[verifier::ext_equal]
pub ghost struct TagMappingView {
    pub tag_id: Seq<char>,
    pub area: u8,
    pub address: u32,
    pub bit_offset: u8,
    pub word_count: u16,
    pub writable: bool,
    pub byte_order: WordOrder,
    pub data_type: TagDataType,
}

impl View for TagMapping {
    type V = TagMappingView;

    open spec fn view(&self) -> TagMappingView {
        TagMappingView {
            tag_id: self.tag_id@,
            area: self.area,
            address: self.address,
            bit_offset: self.bit_offset,
            word_count: self.word_count,
            writable: self.writable,
            byte_order: self.byte_order,
            data_type: self.data_type,
        }
    }
}

/// What the mappings of a sequence say.
pub open spec fn mapping_views(ms: Seq<TagMapping>) -> Seq<TagMappingView> {
    Seq::new(ms.len(), |i: int| ms[i]@)
}

impl TagMapping {
    /// A mapping of its parts.
    pub fn new(
        tag_id: &str,
        area: u8,
        address: u32,
        bit_offset: u8,
        word_count: u16,
        writable: bool,
        byte_order: WordOrder,
        data_type: TagDataType,
    ) -> (r: TagMapping)
        ensures
            r@ == (TagMappingView {
                tag_id: tag_id@,
                area,
                address,
                bit_offset,
                word_count,
                writable,
                byte_order,
                data_type,
            }),
    {
        TagMapping {
            tag_id: tag_id.to_owned(),
            area,
            address,
            bit_offset,
            word_count,
            writable,
            byte_order,
            data_type,
        }
    }
}

} // verus!
