//! OPC UA values as the bridge exchanges them, and their conversion from and to tag values.

use crate::core_model::tag_value::{
    copy_bytes, type_of, Float32, Float64, TagDataType, TagQuality, TagQualityView, TagValue,
    TagValueView,
};
use crate::time::{
    instant_at_nanos, instants_come_back_from_nanos, is_instant, nanos_of, Timestamp,
};
use vstd::prelude::*;
use vstd::string::*;

verus! {

/// An OPC UA variant: a scalar of one of the types that tags have, or something else.
#[derive(Debug)]
pub enum Variant {
    Boolean(bool),
    Int16(i16),
    UInt16(u16),
    Int32(i32),
    UInt32(u32),
    Int64(i64),
    UInt64(u64),
    Float(Float32),
    Double(Float64),
    String(String),
    /// Nanoseconds from 1970-01-01 00:00:00 UTC.
    DateTime(i128),
    ByteString(Vec<u8>),
    /// No value, an array, or a scalar of another type.
    Other,
}

/// What a [`Variant`] says.
#[verifier::ext_equal]
pub ghost enum VariantView {
    Boolean(bool),
    Int16(i16),
    UInt16(u16),
    Int32(i32),
    UInt32(u32),
    Int64(i64),
    UInt64(u64),
    Float(u32),
    Double(u64),
    String(Seq<char>),
    DateTime(i128),
    ByteString(Seq<u8>),
    Other,
}

impl View for Variant {
    type V = VariantView;

    open spec fn view(&self) -> VariantView {
        match *self {
            Variant::Boolean(b) => VariantView::Boolean(b),
            Variant::Int16(v) => VariantView::Int16(v),
            Variant::UInt16(v) => VariantView::UInt16(v),
            Variant::Int32(v) => VariantView::Int32(v),
            Variant::UInt32(v) => VariantView::UInt32(v),
            Variant::Int64(v) => VariantView::Int64(v),
            Variant::UInt64(v) => VariantView::UInt64(v),
            Variant::Float(v) => VariantView::Float(v.bits),
            Variant::Double(v) => VariantView::Double(v.bits),
            Variant::String(s) => VariantView::String(s@),
            Variant::DateTime(n) => VariantView::DateTime(n),
            Variant::ByteString(b) => VariantView::ByteString(b@),
            Variant::Other => VariantView::Other,
        }
    }
}

/// The variant of a tag value. A time whose nanoseconds 64 bits cannot hold has none.
pub open spec fn variant_of(value: TagValueView) -> Option<VariantView> {
    match value {
        TagValueView::Bool(b) => Some(VariantView::Boolean(b)),
        TagValueView::Int16(v) => Some(VariantView::Int16(v)),
        TagValueView::UInt16(v) => Some(VariantView::UInt16(v)),
        TagValueView::Int32(v) => Some(VariantView::Int32(v)),
        TagValueView::UInt32(v) => Some(VariantView::UInt32(v)),
        TagValueView::Int64(v) => Some(VariantView::Int64(v)),
        TagValueView::UInt64(v) => Some(VariantView::UInt64(v)),
        TagValueView::Float(v) => Some(VariantView::Float(v)),
        TagValueView::Double(v) => Some(VariantView::Double(v)),
        TagValueView::String(s) => Some(VariantView::String(s)),
        TagValueView::DateTime(t) => match nanos_of(t) {
            Some(n) => Some(VariantView::DateTime(n as i128)),
            None => None,
        },
        TagValueView::ByteString(b) => Some(VariantView::ByteString(b)),
    }
}

/// The variant of a tag value.
pub fn tagvalue_to_variant(value: &TagValue) -> (r: Option<Variant>)
    ensures
        match r {
            Some(v) => variant_of(value@) == Some(v@),
            None => variant_of(value@) is None,
        },
{
    match value {
        TagValue::Bool(b) => Some(Variant::Boolean(*b)),
        TagValue::Int16(v) => Some(Variant::Int16(*v)),
        TagValue::UInt16(v) => Some(Variant::UInt16(*v)),
        TagValue::Int32(v) => Some(Variant::Int32(*v)),
        TagValue::UInt32(v) => Some(Variant::UInt32(*v)),
        TagValue::Int64(v) => Some(Variant::Int64(*v)),
        TagValue::UInt64(v) => Some(Variant::UInt64(*v)),
        TagValue::Float(v) => Some(Variant::Float(*v)),
        TagValue::Double(v) => Some(Variant::Double(*v)),
        TagValue::String(s) => Some(Variant::String(s.clone())),
        TagValue::DateTime(t) => match t.nanos_opt() {
            Some(n) => Some(Variant::DateTime(n as i128)),
            None => None,
        },
        TagValue::ByteString(b) => Some(Variant::ByteString(copy_bytes(b.as_slice()))),
    }
}

/// Name of the scalar type that values of a data type have.
pub open spec fn scalar_name(data_type: TagDataType) -> Seq<char> {
    match data_type {
        TagDataType::Bool => "Boolean"@,
        TagDataType::Int16 => "Int16"@,
        TagDataType::UInt16 => "UInt16"@,
        TagDataType::Int32 => "Int32"@,
        TagDataType::UInt32 => "UInt32"@,
        TagDataType::Int64 => "Int64"@,
        TagDataType::UInt64 => "UInt64"@,
        TagDataType::Float => "Float"@,
        TagDataType::Double => "Double"@,
        TagDataType::String => "String"@,
        TagDataType::DateTime => "DateTime"@,
        TagDataType::ByteString => "ByteString"@,
    }
}

fn name_of_scalar(data_type: TagDataType) -> (r: &'static str)
    ensures
        r@ == scalar_name(data_type),
{
    match data_type {
        TagDataType::Bool => "Boolean",
        TagDataType::Int16 => "Int16",
        TagDataType::UInt16 => "UInt16",
        TagDataType::Int32 => "Int32",
        TagDataType::UInt32 => "UInt32",
        TagDataType::Int64 => "Int64",
        TagDataType::UInt64 => "UInt64",
        TagDataType::Float => "Float",
        TagDataType::Double => "Double",
        TagDataType::String => "String",
        TagDataType::DateTime => "DateTime",
        TagDataType::ByteString => "ByteString",
    }
}

/// The tag value of a variant, where the variant is a scalar of the expected type. Of the
/// nanoseconds of a time the lowest 64 bits count.
pub open spec fn tagvalue_of(variant: VariantView, expected: TagDataType) -> Result<
    TagValueView,
    Seq<char>,
> {
    match (expected, variant) {
        (TagDataType::Bool, VariantView::Boolean(b)) => Ok(TagValueView::Bool(b)),
        (TagDataType::Int16, VariantView::Int16(v)) => Ok(TagValueView::Int16(v)),
        (TagDataType::UInt16, VariantView::UInt16(v)) => Ok(TagValueView::UInt16(v)),
        (TagDataType::Int32, VariantView::Int32(v)) => Ok(TagValueView::Int32(v)),
        (TagDataType::UInt32, VariantView::UInt32(v)) => Ok(TagValueView::UInt32(v)),
        (TagDataType::Int64, VariantView::Int64(v)) => Ok(TagValueView::Int64(v)),
        (TagDataType::UInt64, VariantView::UInt64(v)) => Ok(TagValueView::UInt64(v)),
        (TagDataType::Float, VariantView::Float(v)) => Ok(TagValueView::Float(v)),
        (TagDataType::Double, VariantView::Double(v)) => Ok(TagValueView::Double(v)),
        (TagDataType::String, VariantView::String(s)) => Ok(TagValueView::String(s)),
        (TagDataType::DateTime, VariantView::DateTime(n)) => Ok(
            TagValueView::DateTime(instant_at_nanos(n as i64)),
        ),
        (TagDataType::ByteString, VariantView::ByteString(b)) => Ok(TagValueView::ByteString(b)),
        _ => Err("Expected "@ + scalar_name(expected)),
    }
}

/// The tag value of a variant, where the variant is a scalar of the expected type.
pub fn variant_to_tagvalue(variant: &Variant, expected: TagDataType) -> (r: Result<
    TagValue,
    String,
>)
    ensures
        match r {
            Ok(v) => tagvalue_of(variant@, expected) == Ok::<TagValueView, Seq<char>>(v@),
            Err(m) => tagvalue_of(variant@, expected) == Err::<TagValueView, Seq<char>>(m@),
        },
{
    match (expected, variant) {
        (TagDataType::Bool, Variant::Boolean(b)) => Ok(TagValue::Bool(*b)),
        (TagDataType::Int16, Variant::Int16(v)) => Ok(TagValue::Int16(*v)),
        (TagDataType::UInt16, Variant::UInt16(v)) => Ok(TagValue::UInt16(*v)),
        (TagDataType::Int32, Variant::Int32(v)) => Ok(TagValue::Int32(*v)),
        (TagDataType::UInt32, Variant::UInt32(v)) => Ok(TagValue::UInt32(*v)),
        (TagDataType::Int64, Variant::Int64(v)) => Ok(TagValue::Int64(*v)),
        (TagDataType::UInt64, Variant::UInt64(v)) => Ok(TagValue::UInt64(*v)),
        (TagDataType::Float, Variant::Float(v)) => Ok(TagValue::Float(*v)),
        (TagDataType::Double, Variant::Double(v)) => Ok(TagValue::Double(*v)),
        (TagDataType::String, Variant::String(s)) => Ok(TagValue::String(s.clone())),
        (TagDataType::DateTime, Variant::DateTime(n)) => {
            let nanos: i64 = #[verifier::truncate] (*n as i64);
            Ok(TagValue::DateTime(Timestamp::from_nanos(nanos)))
        },
        (TagDataType::ByteString, Variant::ByteString(b)) => Ok(
            TagValue::ByteString(copy_bytes(b.as_slice())),
        ),
        _ => Err(crate::text::join2("Expected ", name_of_scalar(expected))),
    }
}

/// A value that has a variant is given back from it, by its own type; a time within a leap second
/// is not.
pub proof fn values_come_back_from_variants(value: TagValueView)
    requires
        variant_of(value) is Some,
        value matches TagValueView::DateTime(t) ==> is_instant(t.secs(), t.nanos()) && t.nanos()
            < 1_000_000_000,
    ensures
        tagvalue_of(variant_of(value)->0, type_of(value)) == Ok::<TagValueView, Seq<char>>(value),
{
    match value {
        TagValueView::DateTime(t) => {
            instants_come_back_from_nanos(t);
            let n = nanos_of(t)->0;
            assert((n as i128) as i64 == n);
        },
        _ => {},
    }
}

/// A variant is taken for one data type at most.
pub proof fn variants_have_one_type(variant: VariantView, a: TagDataType, b: TagDataType)
    requires
        tagvalue_of(variant, a) is Ok,
        tagvalue_of(variant, b) is Ok,
    ensures
        a == b,
        type_of(tagvalue_of(variant, a)->Ok_0) == a,
{
}

/// Status codes that the server answers with.
#[derive(Clone, Copy, Debug, PartialEq, Eq, Structural)]
pub enum StatusCode {
    Good,
    UncertainSubNormal,
    BadUnexpectedError,
    BadInternalError,
}

/// The status code of a quality.
pub open spec fn quality_status(quality: TagQualityView) -> StatusCode {
    match quality {
        TagQualityView::Good => StatusCode::Good,
        TagQualityView::Initializing => StatusCode::UncertainSubNormal,
        TagQualityView::Stale => StatusCode::UncertainSubNormal,
        TagQualityView::Substitute => StatusCode::UncertainSubNormal,
        TagQualityView::CommLost => StatusCode::BadUnexpectedError,
        TagQualityView::ConfigError => StatusCode::BadUnexpectedError,
        TagQualityView::TypeMismatch => StatusCode::BadUnexpectedError,
        TagQualityView::Error(_) => StatusCode::BadUnexpectedError,
    }
}

/// The status code of a quality.
pub fn tagquality_to_ua_status(quality: &TagQuality) -> (r: StatusCode)
    ensures
        r == quality_status(quality@),
{
    match quality {
        TagQuality::Good => StatusCode::Good,
        TagQuality::Initializing => StatusCode::UncertainSubNormal,
        TagQuality::Stale => StatusCode::UncertainSubNormal,
        TagQuality::Substitute => StatusCode::UncertainSubNormal,
        TagQuality::CommLost => StatusCode::BadUnexpectedError,
        TagQuality::ConfigError => StatusCode::BadUnexpectedError,
        TagQuality::TypeMismatch => StatusCode::BadUnexpectedError,
        TagQuality::Error(_) => StatusCode::BadUnexpectedError,
    }
}

/// Nanoseconds of a timestamp from 1970-01-01 00:00:00 UTC; 0 where 64 bits cannot hold them.
pub open spec fn timestamp_nanos(t: Timestamp) -> i64 {
    match nanos_of(t) {
        Some(n) => n,
        None => 0,
    }
}

/// Nanoseconds of a timestamp from 1970-01-01 00:00:00 UTC; 0 where 64 bits cannot hold them.
pub fn nanos_or_zero(t: &Timestamp) -> (r: i64)
    ensures
        r == timestamp_nanos(*t),
{
    match t.nanos_opt() {
        Some(n) => n,
        None => 0,
    }
}

} // verus!
