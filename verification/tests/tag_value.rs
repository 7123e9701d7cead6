use opcua_plc_bridge::core_model::{
    Float32, TagDataType, TagQuality, TagValue, WordOrder,
};
use opcua_plc_bridge::time::Timestamp;

#[test]
fn matches_detection() {
    assert!(TagValue::UInt16(1).matches(&TagDataType::UInt16));
    assert!(!TagValue::UInt16(1).matches(&TagDataType::Float));
    assert!(TagValue::Int64(-5).matches(&TagDataType::Int64));
    assert!(TagValue::UInt64(10).matches(&TagDataType::UInt64));
}

#[test]
fn data_type_inference() {
    assert_eq!(TagValue::Bool(true).data_type(), TagDataType::Bool);
    assert_eq!(
        TagValue::Float(Float32::from_bits(1.5f32.to_bits())).data_type(),
        TagDataType::Float
    );
    assert_eq!(
        TagValue::String("x".into()).data_type(),
        TagDataType::String
    );
    let now = Timestamp::from_parts(0, 0).unwrap();
    assert_eq!(TagValue::DateTime(now).data_type(), TagDataType::DateTime);
    assert_eq!(
        TagValue::ByteString(vec![1, 2, 3]).data_type(),
        TagDataType::ByteString
    );
}

#[test]
fn byte_vec_helpers() {
    let bytes = vec![0xAA, 0xBB, 0xCC, 0xDD];

    let mut b = bytes.clone();
    WordOrder::ABCD.apply_to_bytes(&mut b);
    assert_eq!(b, vec![0xAA, 0xBB, 0xCC, 0xDD]);

    let mut b = bytes.clone();
    WordOrder::BADC.apply_to_bytes(&mut b);
    assert_eq!(b, vec![0xBB, 0xAA, 0xDD, 0xCC]);

    let mut b = bytes.clone();
    WordOrder::CDAB.apply_to_bytes(&mut b);
    assert_eq!(b, vec![0xCC, 0xDD, 0xAA, 0xBB]);

    let mut b = bytes.clone();
    WordOrder::DCBA.apply_to_bytes(&mut b);
    assert_eq!(b, vec![0xDD, 0xCC, 0xBB, 0xAA]);

    let mut bytes_5 = vec![0xAA, 0xBB, 0xCC, 0xDD, 0xEE];
    WordOrder::CDAB.apply_to_bytes(&mut bytes_5);
    assert_eq!(bytes_5, vec![0xCC, 0xDD, 0xAA, 0xBB, 0xEE]);

    let mut bytes_6 = vec![0xAA, 0xBB, 0xCC, 0xDD, 0xEE, 0xFF];
    WordOrder::DCBA.apply_to_bytes(&mut bytes_6);
    assert_eq!(bytes_6, vec![0xDD, 0xCC, 0xBB, 0xAA, 0xFF, 0xEE]);
}

#[test]
fn tag_quality_default_is_initializing() {
    assert_eq!(TagQuality::default(), TagQuality::Initializing);
}
