use opcua_plc_bridge::core_model::{
    CoreError, Float32, Tag, TagDataType, TagDefinition, TagDefinitionStore, TagQuality,
    TagRegistry, TagStore, TagValue,
};
use opcua_plc_bridge::time::{TimeSpan, Timestamp};

fn ago(secs: i64) -> Timestamp {
    Timestamp::from_nanos(Timestamp::now().nanos_opt().unwrap() - secs * 1_000_000_000)
}

fn float(v: f32) -> TagValue {
    TagValue::Float(Float32::from_bits(v.to_bits()))
}

#[test]
fn registry_from_defs_and_basic_ops() {
    let defs = vec![
        TagDefinition::new("ns=1;s=a", "A", "D100", TagDataType::UInt16, "PLC"),
        TagDefinition::new("ns=1;s=b", "B", "D101", TagDataType::Float, "PLC"),
    ];

    let mut reg = TagRegistry::from_definitions(&defs).expect("build registry");
    let ids = reg.list_ids_sorted();
    let expected = vec!["ns=1;s=a".to_string(), "ns=1;s=b".to_string()];
    assert_eq!(ids, expected);

    let def = reg.get_definition("ns=1;s=a").expect("def exists");
    assert_eq!(def.name, "A");

    let tag = reg.get_tag("ns=1;s=a").expect("tag exists");
    assert_eq!(tag.value, TagValue::UInt16(0));

    let updated = reg
        .update_tag_value(
            "ns=1;s=a",
            TagValue::UInt16(123),
            TagQuality::Good,
            Timestamp::now(),
        )
        .expect("update ok");
    assert_eq!(updated.value, TagValue::UInt16(123));
    assert_eq!(updated.quality, TagQuality::Good);
}

#[test]
fn new_tag_defaults_initializing() {
    let t = Tag::new(TagValue::UInt16(0));
    assert_eq!(t.quality, TagQuality::Initializing);
}

#[test]
fn is_stale_detects_staleness() {
    let mut t = Tag::new(float(1.0));
    t.source_timestamp = ago(10);
    assert!(t.is_stale(TimeSpan::seconds(1)));
    assert!(!t.is_stale(TimeSpan::seconds(60)));
}

#[test]
fn apply_read_updates_values_and_timestamps() {
    let mut t = Tag::new(TagValue::UInt16(1));
    let before = t.server_timestamp;
    let src_ts = Timestamp::now();
    t.apply_read(TagValue::UInt16(42), TagQuality::Good, src_ts);
    assert_eq!(t.value, TagValue::UInt16(42));
    assert_eq!(t.quality, TagQuality::Good);
    assert!(t.server_timestamp >= before);
    assert_eq!(t.source_timestamp, src_ts);
}

#[test]
fn validate_ok() {
    let def = TagDefinition::new("ns=1;s=test", "Test", "D100", TagDataType::UInt16, "PLC");
    assert!(def.validate().is_ok());
}

#[test]
fn validate_empty_id() {
    let def = TagDefinition::new("", "Test", "D100", TagDataType::UInt16, "PLC");
    match def.validate() {
        Err(CoreError::InvalidConfig(_)) => {}
        other => panic!("expected InvalidConfig, got {:?}", other),
    }
}

#[test]
fn validate_empty_name() {
    let def = TagDefinition::new("id", "", "D100", TagDataType::UInt16, "PLC");
    match def.validate() {
        Err(CoreError::InvalidConfig(_)) => {}
        other => panic!("expected InvalidConfig, got {:?}", other),
    }
}

#[test]
fn validate_empty_address() {
    let def = TagDefinition::new("id", "Name", "", TagDataType::UInt16, "PLC");
    match def.validate() {
        Err(CoreError::InvalidConfig(_)) => {}
        other => panic!("expected InvalidConfig, got {:?}", other),
    }
}

#[test]
fn constructor_and_helpers() {
    let d = TagDefinition::new("a", "A", "addr", TagDataType::UInt16, "PLC");
    assert_eq!(d.id_str(), "a");
    assert_eq!(d.name_str(), "A");
    assert_eq!(d.address_str(), "addr");
}

#[test]
fn create_and_query_store() {
    let defs = vec![
        TagDefinition::new("a", "A", "D100", TagDataType::UInt16, "PLC"),
        TagDefinition::new("b", "B", "D102", TagDataType::Float, "PLC"),
    ];

    let store = TagDefinitionStore::from_definitions(&defs).ok().expect("build store");
    assert_eq!(store.len(), 2);
    assert!(store.contains("a"));
    let a = store.get("a").expect("exists");
    assert_eq!(a.name, "A");

    let ids: Vec<String> = store
        .all_definitions_sorted()
        .iter()
        .map(|d| d.id.to_string())
        .collect();
    assert_eq!(ids, vec!["a".to_string(), "b".to_string()]);
}

#[test]
fn duplicate_definition_fails() {
    let defs = vec![
        TagDefinition::new("a", "A", "D100", TagDataType::UInt16, "PLC"),
        TagDefinition::new("a", "A2", "D200", TagDataType::UInt16, "PLC"),
    ];
    let res = TagDefinitionStore::from_definitions(&defs);
    assert!(res.is_err());
}

#[test]
fn duplicate_id_is_named() {
    let defs = vec![
        TagDefinition::new("a", "A", "D100", TagDataType::UInt16, "PLC"),
        TagDefinition::new("a", "A2", "D200", TagDataType::UInt16, "PLC"),
    ];
    match TagRegistry::from_definitions(&defs) {
        Err(CoreError::InvalidConfig(m)) => assert_eq!(m, "Duplicate TagDefinition id: a"),
        _ => panic!("expected InvalidConfig"),
    }
}

#[test]
fn blank_fields_are_refused() {
    // A no-break space and an ideographic space are white space too.
    let def = TagDefinition::new(" \t\u{a0}\u{3000}", "N", "D1", TagDataType::Bool, "PLC");
    match def.validate() {
        Err(CoreError::InvalidConfig(m)) => assert_eq!(m, "TagDefinition.id is empty"),
        other => panic!("unexpected {:?}", other),
    }
    let def = TagDefinition::new("x", " ", "D1", TagDataType::Bool, "PLC");
    match def.validate() {
        Err(CoreError::InvalidConfig(m)) => {
            assert_eq!(m, "TagDefinition.name is empty for id 'x'")
        }
        other => panic!("unexpected {:?}", other),
    }
    let def = TagDefinition::new("x", "n", "\n", TagDataType::Bool, "PLC");
    match def.validate() {
        Err(CoreError::InvalidConfig(m)) => {
            assert_eq!(m, "TagDefinition.address is empty for id 'x'")
        }
        other => panic!("unexpected {:?}", other),
    }
}

#[test]
fn definitions_are_listed_in_order() {
    let defs = vec![
        TagDefinition::new("b", "B", "1", TagDataType::Bool, "P"),
        TagDefinition::new("\u{e9}", "E", "1", TagDataType::Bool, "P"),
        TagDefinition::new("a", "A", "1", TagDataType::Bool, "P"),
        TagDefinition::new("aa", "AA", "1", TagDataType::Bool, "P"),
        TagDefinition::new("Z", "Z", "1", TagDataType::Bool, "P"),
    ];
    let reg = TagRegistry::from_definitions(&defs).unwrap();
    let ids: Vec<String> = reg.all_definitions_sorted().iter().map(|d| d.id.clone()).collect();
    let mut expected: Vec<String> = defs.iter().map(|d| d.id.clone()).collect();
    expected.sort();
    assert_eq!(ids, expected);
    assert_eq!(reg.list_ids_sorted(), expected);
}

#[test]
fn initial_values_are_zero_equivalents() {
    let types = [
        TagDataType::Bool,
        TagDataType::Int16,
        TagDataType::UInt16,
        TagDataType::Int32,
        TagDataType::UInt32,
        TagDataType::Int64,
        TagDataType::UInt64,
        TagDataType::Float,
        TagDataType::Double,
        TagDataType::String,
        TagDataType::DateTime,
        TagDataType::ByteString,
    ];
    let defs: Vec<TagDefinition> = types
        .iter()
        .enumerate()
        .map(|(i, t)| TagDefinition::new(&format!("t{}", i), "n", "a", *t, "P"))
        .collect();
    let reg = TagRegistry::from_definitions(&defs).unwrap();
    for (i, t) in types.iter().enumerate() {
        let tag = reg.get_tag(&format!("t{}", i)).unwrap();
        assert_eq!(tag.value.data_type(), *t);
        assert_eq!(tag.quality, TagQuality::Initializing);
    }
    assert_eq!(reg.get_tag("t1").unwrap().value, TagValue::Int16(0));
    assert_eq!(reg.get_tag("t9").unwrap().value, TagValue::String("".into()));
    assert_eq!(reg.get_tag("t11").unwrap().value, TagValue::ByteString(vec![]));
}

#[test]
fn updates_are_refused_for_unknown_ids_and_other_types() {
    let defs = vec![TagDefinition::new("a", "A", "1", TagDataType::UInt16, "P")];
    let mut reg = TagRegistry::from_definitions(&defs).unwrap();
    let now = Timestamp::now();
    match reg.update_tag_value("b", TagValue::UInt16(1), TagQuality::Good, now) {
        Err(CoreError::DefinitionNotFound(id)) => assert_eq!(id, "b"),
        other => panic!("unexpected {:?}", other),
    }
    match reg.update_tag_value("a", TagValue::Bool(true), TagQuality::Good, now) {
        Err(CoreError::TypeMismatch(_)) => {}
        other => panic!("unexpected {:?}", other),
    }
    let tag = reg.get_tag("a").unwrap();
    assert_eq!(tag.value, TagValue::UInt16(0));
    assert_eq!(tag.quality, TagQuality::Initializing);
    match reg.get_tag("zz") {
        Err(CoreError::TagNotFound(id)) => assert_eq!(id, "zz"),
        other => panic!("unexpected {:?}", other),
    }
    match reg.set_tag_quality("zz", TagQuality::Good) {
        Err(CoreError::TagNotFound(id)) => assert_eq!(id, "zz"),
        other => panic!("unexpected {:?}", other),
    }
}

#[test]
fn setting_a_quality_keeps_the_value() {
    let defs = vec![TagDefinition::new("a", "A", "1", TagDataType::UInt16, "P")];
    let mut reg = TagRegistry::from_definitions(&defs).unwrap();
    let source = ago(3);
    reg.update_tag_value("a", TagValue::UInt16(7), TagQuality::Good, source).unwrap();
    reg.set_tag_quality("a", TagQuality::Error("x".into())).unwrap();
    let tag = reg.get_tag("a").unwrap();
    assert_eq!(tag.value, TagValue::UInt16(7));
    assert_eq!(tag.source_timestamp, source);
    assert_eq!(tag.quality, TagQuality::Error("x".into()));
}

#[test]
fn insert_and_get() {
    let mut store = TagStore::new();
    store.insert("a".to_string(), Tag::new(TagValue::UInt16(1)));
    let t = store.get("a").expect("exists");
    assert_eq!(t.value, TagValue::UInt16(1));
}

#[test]
fn update_and_snapshot() {
    let mut store = TagStore::new();
    store.insert("x".to_string(), Tag::new(float(0.0)));
    let updated = store
        .update_value_with_expected(
            "x",
            float(std::f32::consts::PI),
            TagQuality::Good,
            Timestamp::now(),
            TagDataType::Float,
        )
        .expect("update ok");
    assert_eq!(updated.value, float(std::f32::consts::PI));
    let s = store.get("x").expect("snapshot").clone();
    assert_eq!(s.value, float(std::f32::consts::PI));
}

#[test]
fn try_update_with_applies_changes() {
    let mut store = TagStore::new();
    store.insert("u".to_string(), Tag::new(TagValue::UInt16(2)));
    store
        .try_update_with("u", |mut t: Tag| {
            if let TagValue::UInt16(_) = &t.value {
                t.value = TagValue::UInt16(10);
                Ok((t, ()))
            } else {
                Err(CoreError::TypeMismatch("u".into()))
            }
        })
        .expect("applied");
    let snapshot = store.get("u").expect("snapshot").clone();
    assert_eq!(snapshot.value, TagValue::UInt16(10));
}

#[test]
fn failed_update_with_changes_nothing() {
    let mut store = TagStore::new();
    store.insert("u".to_string(), Tag::new(TagValue::UInt16(2)));
    let r: Result<(), CoreError> =
        store.try_update_with("u", |_t: Tag| Err(CoreError::TypeMismatch("u".into())));
    assert!(matches!(r, Err(CoreError::TypeMismatch(_))));
    assert_eq!(store.get("u").unwrap().value, TagValue::UInt16(2));
    let r: Result<(), CoreError> = store.try_update_with("v", |t: Tag| Ok((t, ())));
    assert!(matches!(r, Err(CoreError::TagNotFound(_))));
}

#[test]
fn subscribers_get_changes_in_order() {
    let defs = vec![TagDefinition::new("a", "A", "1", TagDataType::UInt16, "P")];
    let mut reg = TagRegistry::from_definitions(&defs).unwrap();
    let s = reg.subscribe();
    assert!(reg.next_change(s).is_none());
    let now = Timestamp::now();
    reg.update_tag_value("a", TagValue::UInt16(1), TagQuality::Good, now).unwrap();
    reg.update_tag_value("a", TagValue::UInt16(2), TagQuality::Good, now).unwrap();
    let first = reg.next_change(s).unwrap();
    let second = reg.next_change(s).unwrap();
    assert_eq!(first.tag_id, "a");
    assert_eq!(first.tag.value, TagValue::UInt16(1));
    assert_eq!(second.tag.value, TagValue::UInt16(2));
    assert!(reg.next_change(s).is_none());
}

#[test]
fn stale_in_the_future_or_with_negative_timeout() {
    let mut t = Tag::new(TagValue::Bool(true));
    t.source_timestamp = ago(-100);
    assert!(t.is_stale(TimeSpan::seconds(1000)));
    t.source_timestamp = ago(1);
    assert!(t.is_stale(TimeSpan::milliseconds(-1)));
}

#[test]
fn new_subscriber_gets_one_change_for_each_call_that_succeeds() {
    let mut store = TagStore::new();
    store.insert("a".into(), Tag::new(TagValue::UInt16(0)));
    let s = store.subscribe();
    let now = Timestamp::now();
    for i in 0..126u16 {
        let t = TagDataType::UInt16;
        store
            .update_value_with_expected("a", TagValue::UInt16(i), TagQuality::Good, now, t)
            .unwrap();
        assert!(store
            .update_value_with_expected("a", TagValue::Bool(true), TagQuality::Good, now, t)
            .is_err());
    }
    assert!(store.set_quality("missing", TagQuality::Stale).is_err());
    store.set_quality("a", TagQuality::Stale).unwrap();
    store.insert("b".into(), Tag::new(TagValue::Bool(true)));
    store.set_quality("b", TagQuality::Good).unwrap();
    for i in 0..126u16 {
        let c = store.next_change(s).unwrap();
        assert_eq!((c.tag_id.as_str(), c.tag.value), ("a", TagValue::UInt16(i)));
    }
    let c = store.next_change(s).unwrap();
    assert_eq!((c.tag_id.as_str(), c.tag.quality), ("a", TagQuality::Stale));
    let c = store.next_change(s).unwrap();
    assert_eq!((c.tag_id.as_str(), c.tag.value), ("b", TagValue::Bool(true)));
    assert!(store.next_change(s).is_none());
}

#[test]
fn order_of_definitions_does_not_matter() {
    let make = |ids: &[&str]| {
        let defs: Vec<_> = ids
            .iter()
            .map(|id| TagDefinition::new(id, id, "1", TagDataType::UInt16, "P"))
            .collect();
        let store = TagDefinitionStore::from_definitions(&defs).unwrap();
        assert_eq!(store.len(), ids.len());
        store.all_definitions_sorted().iter().map(|d| d.id.clone()).collect::<Vec<_>>()
    };
    let sorted = vec!["A".to_string(), "a".into(), "b".into(), "z".into(), "\u{e9}".into()];
    assert_eq!(make(&["b", "\u{e9}", "a", "A", "z"]), sorted);
    assert_eq!(make(&["z", "A", "\u{e9}", "b", "a"]), sorted);
}

#[test]
fn insertion_adds_its_id_once() {
    let mut store = TagStore::new();
    for (id, n, len) in [("m", 1, 1), ("c", 2, 2), ("m", 3, 2), ("z", 4, 3), ("c", 5, 3)] {
        store.insert(id.into(), Tag::new(TagValue::UInt16(n)));
        assert_eq!(store.len(), len);
        assert_eq!(store.get(id).unwrap().value, TagValue::UInt16(n));
    }
    assert_eq!(store.list_ids_sorted(), vec!["c", "m", "z"]);
    assert_eq!(store.get("m").unwrap().value, TagValue::UInt16(3));
}
