//! What a variable node reads from the registry, and what it makes of the writes of clients.

use crate::core_model::registry::{RegistryView, TagRegistry};
use crate::core_model::tag::TagView;
use crate::core_model::tag_value::{TagDataType, TagQuality, TagQualityView, TagValueView};
use crate::driver_common::write_request::{Confirmation, ReplyId};
use crate::opcua_server::config::WriteMode;
use crate::opcua_server::variant::{
    nanos_or_zero, quality_status, tagquality_to_ua_status, tagvalue_of, tagvalue_to_variant,
    timestamp_nanos, values_come_back_from_variants, variant_of, variant_to_tagvalue, StatusCode,
    Variant, VariantView,
};
use crate::opcua_server::writes::{BridgeWrite, BridgeWriteView};
use crate::time::is_instant;
use vstd::prelude::*;
use vstd::string::*;

verus! {

/// How long a variable node waits for the confirmation of a write, in milliseconds.
pub const CONFIRM_TIMEOUT_MS: u64 = 5000;

/// A value with its status and timestamps, as a client reads it.
#[derive(Debug)]
pub struct DataValue {
    pub variant: Variant,
    pub status: StatusCode,
    /// Nanoseconds of the source timestamp from 1970-01-01 00:00:00 UTC.
    pub source_nanos: i64,
    /// Nanoseconds of the server timestamp from 1970-01-01 00:00:00 UTC.
    pub server_nanos: i64,
}

/// What a [`DataValue`] says.
#[verifier::ext_equal]
pub ghost struct DataValueView {
    pub variant: VariantView,
    pub status: StatusCode,
    pub source_nanos: i64,
    pub server_nanos: i64,
}

impl View for DataValue {
    type V = DataValueView;

    open spec fn view(&self) -> DataValueView {
        DataValueView {
            variant: self.variant@,
            status: self.status,
            source_nanos: self.source_nanos,
            server_nanos: self.server_nanos,
        }
    }
}

/// What a client reads of a tag. A tag that waits for its first value is good, since the server
/// refuses to create nodes whose value is not.
pub open spec fn tag_read(tag: TagView) -> Result<DataValueView, StatusCode> {
    match variant_of(tag.value) {
        Some(variant) => Ok(
            DataValueView {
                variant,
                status: if tag.quality == TagQualityView::Initializing {
                    StatusCode::Good
                } else {
                    quality_status(tag.quality)
                },
                source_nanos: timestamp_nanos(tag.source_timestamp),
                server_nanos: timestamp_nanos(tag.server_timestamp),
            },
        ),
        None => Err(StatusCode::BadInternalError),
    }
}

/// What a client reads of the tag `id`.
pub open spec fn value_read(reg: RegistryView, id: Seq<char>) -> Result<DataValueView, StatusCode> {
    if reg.has_tag(id) {
        tag_read(reg.store.tags[id])
    } else {
        Err(StatusCode::BadInternalError)
    }
}

/// The value that a client writes to the tag `id`.
pub open spec fn value_written(
    reg: RegistryView,
    id: Seq<char>,
    variant: Option<VariantView>,
) -> Result<TagValueView, StatusCode> {
    match variant {
        None => Err(StatusCode::BadInternalError),
        Some(v) => if !reg.definitions.contains_key(id) {
            Err(StatusCode::BadInternalError)
        } else {
            match tagvalue_of(v, reg.definitions[id].data_type) {
                Ok(value) => Ok(value),
                Err(_) => Err(StatusCode::BadInternalError),
            }
        },
    }
}

/// What is done after a write was handed over.
#[derive(Clone, Copy, Debug)]
pub enum AfterSend {
    /// The client is answered.
    Answer(Result<(), StatusCode>),
    /// The confirmation is awaited for so many milliseconds.
    AwaitConfirmation(u64),
}

/// The source of a variable node's value.
#[derive(Debug)]
pub struct TagDataSource {
    /// Id of the tag.
    pub tag_id: String,
    /// How writes are acknowledged.
    pub write_mode: WriteMode,
    /// How long a confirmation is awaited, in milliseconds.
    pub confirm_timeout_ms: u64,
}

impl TagDataSource {
    /// The source of a tag's value.
    pub fn new(tag_id: String, write_mode: WriteMode, confirm_timeout_ms: u64) -> (r: TagDataSource)
        ensures
            r.tag_id@ == tag_id@,
            r.write_mode == write_mode,
            r.confirm_timeout_ms == confirm_timeout_ms,
    {
        TagDataSource { tag_id, write_mode, confirm_timeout_ms }
    }

    /// What a client reads.
    pub fn read(&self, registry: &TagRegistry) -> (r: Result<DataValue, StatusCode>)
        ensures
            match r {
                Ok(v) => value_read(registry@, self.tag_id@) == Ok::<DataValueView, StatusCode>(
                    v@,
                ),
                Err(s) => value_read(registry@, self.tag_id@) == Err::<DataValueView, StatusCode>(
                    s,
                ),
            },
    {
        match registry.get_tag(self.tag_id.as_str()) {
            Ok(tag) => match tagvalue_to_variant(&tag.value) {
                Some(variant) => {
                    let status = match &tag.quality {
                        TagQuality::Initializing => StatusCode::Good,
                        q => tagquality_to_ua_status(q),
                    };
                    Ok(
                        DataValue {
                            variant,
                            status,
                            source_nanos: nanos_or_zero(&tag.source_timestamp),
                            server_nanos: nanos_or_zero(&tag.server_timestamp),
                        },
                    )
                },
                None => Err(StatusCode::BadInternalError),
            },
            Err(_) => Err(StatusCode::BadInternalError),
        }
    }

    /// The write that is handed over for a value that a client wrote; its confirmation goes to
    /// `reply` where one is awaited.
    pub fn write(&self, registry: &TagRegistry, variant: Option<&Variant>, reply: ReplyId) -> (r:
        Result<BridgeWrite, StatusCode>)
        ensures
            match value_written(
                registry@,
                self.tag_id@,
                match variant {
                    Some(v) => Some(v@),
                    None => None,
                },
            ) {
                Ok(value) => r matches Ok(w) && w@ == (BridgeWriteView {
                    tag_id: self.tag_id@,
                    value,
                    reply: if self.write_mode == WriteMode::ConfirmedAck {
                        Some(reply)
                    } else {
                        None
                    },
                }),
                Err(s) => r == Err::<BridgeWrite, StatusCode>(s),
            },
    {
        let v = match variant {
            Some(v) => v,
            None => {
                return Err(StatusCode::BadInternalError);
            },
        };
        let expected: TagDataType = match registry.get_definition(self.tag_id.as_str()) {
            Ok(def) => def.data_type,
            Err(_) => {
                return Err(StatusCode::BadInternalError);
            },
        };
        match variant_to_tagvalue(v, expected) {
            Ok(value) => Ok(
                BridgeWrite {
                    tag_id: self.tag_id.clone(),
                    value,
                    reply: if self.write_mode == WriteMode::ConfirmedAck {
                        Some(reply)
                    } else {
                        None
                    },
                },
            ),
            Err(_) => Err(StatusCode::BadInternalError),
        }
    }

    /// What is done after a write was handed over, or could not be.
    pub fn after_send(&self, sent: bool) -> (r: AfterSend)
        ensures
            r == (if !sent {
                AfterSend::Answer(Err(StatusCode::BadInternalError))
            } else {
                match self.write_mode {
                    WriteMode::QueuedAck => AfterSend::Answer(Ok(())),
                    WriteMode::ConfirmedAck => AfterSend::AwaitConfirmation(
                        self.confirm_timeout_ms,
                    ),
                }
            }),
    {
        if !sent {
            return AfterSend::Answer(Err(StatusCode::BadInternalError));
        }
        match self.write_mode {
            WriteMode::QueuedAck => AfterSend::Answer(Ok(())),
            WriteMode::ConfirmedAck => AfterSend::AwaitConfirmation(self.confirm_timeout_ms),
        }
    }

    /// What a client is answered by what became of the confirmation.
    pub fn after_confirmation(confirmation: &Confirmation) -> (r: Result<(), StatusCode>)
        ensures
            r == (if confirmation matches Confirmation::Replied(Ok(_)) {
                Ok::<(), StatusCode>(())
            } else {
                Err::<(), StatusCode>(StatusCode::BadInternalError)
            }),
    {
        match confirmation {
            Confirmation::Replied(Ok(_)) => Ok(()),
            _ => Err(StatusCode::BadInternalError),
        }
    }
}

/// What a client reads of a tag, it can write back: the write is of the value that the tag holds.
///
/// A time within a leap second is not written back as it was read.
pub proof fn read_value_can_be_written_back(reg: RegistryView, id: Seq<char>)
    requires
        reg.consistent(),
        value_read(reg, id) is Ok,
        reg.store.tags[id].value matches TagValueView::DateTime(t) ==> is_instant(
            t.secs(),
            t.nanos(),
        ) && t.nanos() < 1_000_000_000,
    ensures
        value_written(reg, id, Some(value_read(reg, id)->Ok_0.variant)) == Ok::<
            TagValueView,
            StatusCode,
        >(reg.store.tags[id].value),
{
    assert(reg.store.tags.dom().contains(id));
    assert(reg.definitions.contains_key(id));
    values_come_back_from_variants(reg.store.tags[id].value);
}

/// A write that is handed over has the type of the tag, so that the registry accepts it.
pub proof fn written_value_is_accepted(
    reg: RegistryView,
    id: Seq<char>,
    variant: Option<VariantView>,
)
    requires
        reg.consistent(),
        value_written(reg, id, variant) is Ok,
    ensures
        reg.update_fault(id, value_written(reg, id, variant)->Ok_0) is None,
{
    let expected = reg.definitions[id].data_type;
    crate::opcua_server::variant::variants_have_one_type(variant->0, expected, expected);
    assert(reg.definitions.dom().contains(id));
    assert(reg.store.tags.dom().contains(id));
}

} // verus!
