//! Tag definition: static configuration-time metadata of a tag.

use crate::core_model::error::{CoreError, CoreErrorView};
use crate::core_model::tag_value::{TagDataType, WordOrder};
use crate::text;
use vstd::prelude::*;
use vstd::string::*;

verus! {

/// The static, configuration-time metadata of a tag.
///
/// This structure is protocol-agnostic: `address` is an opaque string that protocol drivers
/// interpret (for example "D100" for FINS or "300" for Modbus registers).
#[derive(Debug)]
pub struct TagDefinition {
    /// Stable identifier of this tag, such as `ns=1;s=PLC1.Tag1`.
    pub id: String,
    /// Human-friendly display name.
    pub name: String,
    /// Protocol-specific address string.
    pub address: String,
    /// Data type of this tag.
    pub data_type: TagDataType,
    /// Whether OPC UA clients are allowed to write this tag.
    pub writable: bool,
    /// Byte/word order used when combining multiple 16-bit registers.
    pub byte_order: WordOrder,
    /// Staleness threshold in milliseconds, if any.
    pub stale_after_ms: Option<u64>,
    /// Arbitrary metadata (driver-specific hints, units, scaling, etc.).
    pub metadata: Option<serde_json::Value>,
    /// Name of the PLC that owns this tag.
    pub plc_name: String,
}

/// What a [`TagDefinition`] says.
#[verifier::ext_equal]
pub ghost struct TagDefinitionView {
    pub id: Seq<char>,
    pub name: Seq<char>,
    pub address: Seq<char>,
    pub data_type: TagDataType,
    pub writable: bool,
    pub byte_order: WordOrder,
    pub stale_after_ms: Option<u64>,
    pub metadata: Option<serde_json::Value>,
    pub plc_name: Seq<char>,
}

impl View for TagDefinition {
    type V = TagDefinitionView;

    open spec fn view(&self) -> TagDefinitionView {
        TagDefinitionView {
            id: self.id@,
            name: self.name@,
            address: self.address@,
            data_type: self.data_type,
            writable: self.writable,
            byte_order: self.byte_order,
            stale_after_ms: self.stale_after_ms,
            metadata: self.metadata,
            plc_name: self.plc_name@,
        }
    }
}

impl TagDefinitionView {
    /// What is wrong with the definition: a blank id, name or address.
    pub open spec fn fault(self) -> Option<CoreErrorView> {
        if text::is_blank(self.id) {
            Some(CoreErrorView::InvalidConfig("TagDefinition.id is empty"@))
        } else if text::is_blank(self.name) {
            Some(
                CoreErrorView::InvalidConfig(
                    "TagDefinition.name is empty for id '"@ + self.id + "'"@,
                ),
            )
        } else if text::is_blank(self.address) {
            Some(
                CoreErrorView::InvalidConfig(
                    "TagDefinition.address is empty for id '"@ + self.id + "'"@,
                ),
            )
        } else {
            None
        }
    }
}

impl Clone for TagDefinition {
    fn clone(&self) -> (r: TagDefinition)
        ensures
            r == *self,
    {
        TagDefinition {
            id: self.id.clone(),
            name: self.name.clone(),
            address: self.address.clone(),
            data_type: self.data_type,
            writable: self.writable,
            byte_order: self.byte_order,
            stale_after_ms: self.stale_after_ms,
            metadata: match &self.metadata {
                Some(v) => Some(v.clone()),
                None => None,
            },
            plc_name: self.plc_name.clone(),
        }
    }
}

impl TagDefinition {
    /// Validate basic invariants: id, name and address are not blank.
    pub fn validate(&self) -> (r: Result<(), CoreError>)
        ensures
            match r {
                Ok(_) => self@.fault() is None,
                Err(e) => self@.fault() == Some(e@),
            },
    {
        if text::blank(self.id.as_str()) {
            return Err(CoreError::InvalidConfig("TagDefinition.id is empty".to_owned()));
        }
        if text::blank(self.name.as_str()) {
            return Err(
                CoreError::InvalidConfig(
                    text::join3("TagDefinition.name is empty for id '", self.id.as_str(), "'"),
                ),
            );
        }
        if text::blank(self.address.as_str()) {
            return Err(
                CoreError::InvalidConfig(
                    text::join3("TagDefinition.address is empty for id '", self.id.as_str(), "'"),
                ),
            );
        }
        Ok(())
    }

    /// A definition of a tag that is not writable, in the default byte order, without
    /// staleness threshold and metadata.
    pub fn new(id: &str, name: &str, address: &str, data_type: TagDataType, plc_name: &str) -> (r:
        TagDefinition)
        ensures
            r@ == (TagDefinitionView {
                id: id@,
                name: name@,
                address: address@,
                data_type,
                writable: false,
                byte_order: WordOrder::ABCD,
                stale_after_ms: None,
                metadata: None,
                plc_name: plc_name@,
            }),
    {
        TagDefinition {
            id: id.to_owned(),
            name: name.to_owned(),
            address: address.to_owned(),
            data_type,
            writable: false,
            byte_order: WordOrder::default(),
            stale_after_ms: None,
            metadata: None,
            plc_name: plc_name.to_owned(),
        }
    }

    /// The id.
    pub fn id_str(&self) -> (r: &str)
        ensures
            r@ == self@.id,
    {
        self.id.as_str()
    }

    /// The name.
    pub fn name_str(&self) -> (r: &str)
        ensures
            r@ == self@.name,
    {
        self.name.as_str()
    }

    /// The address.
    pub fn address_str(&self) -> (r: &str)
        ensures
            r@ == self@.address,
    {
        self.address.as_str()
    }

    /// The staleness threshold in milliseconds, if configured.
    pub fn stale_after_ms(&self) -> (r: Option<u64>)
        ensures
            r == self@.stale_after_ms,
    {
        self.stale_after_ms
    }
}

} // verus!
