//! The registry: definitions of tags together with their runtime state.

use crate::core_model::error::{CoreError, CoreErrorView};
use crate::core_model::sorted_map::{lists, texts};
use crate::core_model::tag::{Tag, TagView};
use crate::core_model::tag_definition::{TagDefinition, TagDefinitionView};
use crate::core_model::tag_definition_store::{
    definition_views, definitions_by_id, definitions_by_id_has_each_id, definitions_fault,
    ids_in_order, sorted_definitions, TagDefinitionStore,
};
use crate::core_model::tag_store::{TagChange, TagChangeView, TagStore, TagStoreView};
use crate::core_model::tag_value::{
    type_of, Float32, Float64, TagDataType, TagQuality, TagQualityView, TagValue, TagValueView,
};
use crate::time::{is_clock_reading, Timestamp};
use vstd::prelude::*;
use vstd::string::*;

verus! {

/// The value that a tag has before the PLC is read: zero, or empty, or the current time.
pub open spec fn initial_value(data_type: TagDataType, now: Timestamp) -> TagValueView {
    match data_type {
        TagDataType::Bool => TagValueView::Bool(false),
        TagDataType::Int16 => TagValueView::Int16(0),
        TagDataType::UInt16 => TagValueView::UInt16(0),
        TagDataType::Int32 => TagValueView::Int32(0),
        TagDataType::UInt32 => TagValueView::UInt32(0),
        TagDataType::Int64 => TagValueView::Int64(0),
        TagDataType::UInt64 => TagValueView::UInt64(0),
        TagDataType::Float => TagValueView::Float(0),
        TagDataType::Double => TagValueView::Double(0),
        TagDataType::DateTime => TagValueView::DateTime(now),
        TagDataType::ByteString => TagValueView::ByteString(Seq::empty()),
        TagDataType::String => TagValueView::String(Seq::empty()),
    }
}

/// What a [`TagRegistry`] holds.
#[verifier::ext_equal]
pub ghost struct RegistryView {
    pub definitions: Map<Seq<char>, TagDefinitionView>,
    pub store: TagStoreView,
}

impl RegistryView {
    /// The registry of definitions, before any PLC is read.
    pub open spec fn initial(
        definitions: Map<Seq<char>, TagDefinitionView>,
        now: Timestamp,
    ) -> RegistryView {
        RegistryView {
            definitions,
            store: TagStoreView {
                tags: definitions.map_values(
                    |d: TagDefinitionView| TagView::fresh(initial_value(d.data_type, now), now),
                ),
                mailboxes: Seq::empty(),
            },
        }
    }

    /// Exactly the defined tags have a runtime state, and each holds a value of the defined
    /// type.
    pub open spec fn consistent(self) -> bool {
        &&& self.store.tags.dom() == self.definitions.dom()
        &&& forall|id: Seq<char>| #[trigger]
            self.definitions.contains_key(id) ==> self.definitions[id].id == id && type_of(
                self.store.tags[id].value,
            ) == self.definitions[id].data_type
    }

    /// The registry after the quality of tag `id` was set; unchanged where there is no such tag.
    pub open spec fn set_quality(
        self,
        id: Seq<char>,
        quality: TagQualityView,
        now: Timestamp,
    ) -> RegistryView {
        RegistryView { store: self.store.set_quality(id, quality, now), ..self }
    }

    /// Why a value is not accepted for tag `id`, if it is not.
    pub open spec fn update_fault(self, id: Seq<char>, value: TagValueView) -> Option<
        CoreErrorView,
    > {
        if !self.definitions.contains_key(id) {
            Some(CoreErrorView::DefinitionNotFound(id))
        } else {
            self.store.update_fault(id, value, self.definitions[id].data_type)
        }
    }

    /// The registry after a value was read for tag `id`; unchanged where it is not accepted.
    pub open spec fn update(
        self,
        id: Seq<char>,
        value: TagValueView,
        quality: TagQualityView,
        source_ts: Timestamp,
        now: Timestamp,
    ) -> RegistryView {
        if self.definitions.contains_key(id) {
            RegistryView {
                store: self.store.update(
                    id,
                    value,
                    quality,
                    source_ts,
                    self.definitions[id].data_type,
                    now,
                ),
                ..self
            }
        } else {
            self
        }
    }

    /// Whether there is a runtime state of tag `id`.
    pub open spec fn has_tag(self, id: Seq<char>) -> bool {
        self.store.tags.contains_key(id)
    }
}

/// The state of the tag `id` is the same in both registries, and so are the definitions.
pub open spec fn same_tag(a: RegistryView, b: RegistryView, id: Seq<char>) -> bool {
    &&& a.definitions == b.definitions
    &&& a.has_tag(id) == b.has_tag(id)
    &&& a.has_tag(id) ==> a.store.tags[id] == b.store.tags[id]
}

/// Combines the read-only definitions with the runtime state of the tags.
pub struct TagRegistry {
    definitions: TagDefinitionStore,
    tags: TagStore,
}

impl View for TagRegistry {
    type V = RegistryView;

    closed spec fn view(&self) -> RegistryView {
        RegistryView { definitions: self.definitions@, store: self.tags@ }
    }
}

fn first_value(data_type: TagDataType, now: Timestamp) -> (r: TagValue)
    ensures
        r@ == initial_value(data_type, now),
{
    let r = match data_type {
        TagDataType::Bool => TagValue::Bool(false),
        TagDataType::Int16 => TagValue::Int16(0),
        TagDataType::UInt16 => TagValue::UInt16(0),
        TagDataType::Int32 => TagValue::Int32(0),
        TagDataType::UInt32 => TagValue::UInt32(0),
        TagDataType::Int64 => TagValue::Int64(0),
        TagDataType::UInt64 => TagValue::UInt64(0),
        TagDataType::Float => TagValue::Float(Float32::from_bits(0)),
        TagDataType::Double => TagValue::Double(Float64::from_bits(0)),
        TagDataType::DateTime => TagValue::DateTime(now),
        TagDataType::ByteString => TagValue::ByteString(Vec::new()),
        TagDataType::String => TagValue::String(String::new()),
    };
    assert(r@ =~= initial_value(data_type, now));
    r
}

impl TagRegistry {
    /// Build a registry from definitions, as of now. The definitions are validated, and the
    /// tags get zero-equivalent values.
    pub fn from_definitions(defs: &[TagDefinition]) -> (r: Result<TagRegistry, CoreError>)
        ensures
            match r {
                Ok(reg) => {
                    &&& definitions_fault(definition_views(defs@)) is None
                    &&& reg@.consistent()
                    &&& exists|now: Timestamp| is_clock_reading(now) &&
                        reg@ == #[trigger] RegistryView::initial(
                            definitions_by_id(definition_views(defs@)),
                            now,
                        )
                },
                Err(e) => definitions_fault(definition_views(defs@)) == Some(e@),
            },
    {
        let now = Timestamp::now();
        TagRegistry::from_definitions_at(defs, now)
    }

    /// Build a registry from definitions, as of `now`.
    pub fn from_definitions_at(defs: &[TagDefinition], now: Timestamp) -> (r: Result<
        TagRegistry,
        CoreError,
    >)
        ensures
            match r {
                Ok(reg) => {
                    &&& definitions_fault(definition_views(defs@)) is None
                    &&& reg@.consistent()
                    &&& reg@ == RegistryView::initial(
                        definitions_by_id(definition_views(defs@)),
                        now,
                    )
                },
                Err(e) => definitions_fault(definition_views(defs@)) == Some(e@),
            },
    {
        let definitions = match TagDefinitionStore::from_definitions(defs) {
            Ok(d) => d,
            Err(e) => {
                return Err(e);
            },
        };
        let ghost ids = definitions.ids();
        let ghost all = definitions@;
        let ghost wanted = RegistryView::initial(all, now).store.tags;
        let mut tags = TagStore::new();
        let n = definitions.len();
        let mut i: usize = 0;
        proof {
            definitions_by_id_has_each_id(definition_views(defs@));
        }
        while i < n
            invariant
                i <= n,
                n == ids.len(),
                ids == definitions.ids(),
                all == definitions@,
                lists(ids, all.dom()),
                forall|k: Seq<char>| all.contains_key(k) ==> (#[trigger] all[k]).id == k,
                wanted == RegistryView::initial(all, now).store.tags,
                tags@.mailboxes == Seq::<Seq<TagChangeView>>::empty(),
                forall|k: Seq<char>| #[trigger]
                    tags@.tags.contains_key(k) <==> ids.take(i as int).contains(k),
                forall|k: Seq<char>|
                    tags@.tags.contains_key(k) ==> #[trigger] tags@.tags[k] == wanted[k],
            decreases n - i,
        {
            let def = definitions.at(i);
            let ghost before = tags@;
            let tag = Tag::new_at(first_value(def.data_type, now), now);
            let ghost id = ids[i as int];
            proof {
                assert(all.contains_key(id));
                assert(all[id].id == id);
            }
            tags.insert(def.id.clone(), tag);
            proof {
                assert(tags@.mailboxes =~= Seq::<Seq<TagChangeView>>::empty());
                let done = ids.take(i as int);
                let next = ids.take(i + 1);
                assert(next =~= done.push(id));
                assert forall|k: Seq<char>| #[trigger]
                    tags@.tags.contains_key(k) <==> next.contains(k) by {
                    if done.contains(k) {
                        let j = choose|j: int| 0 <= j < done.len() && done[j] == k;
                        assert(next[j] == k);
                    }
                    if k == id {
                        assert(next[i as int] == k);
                    }
                    if next.contains(k) {
                        let j = choose|j: int| 0 <= j < next.len() && next[j] == k;
                        if j < i {
                            assert(done[j] == k);
                        }
                    }
                }
                assert(tags@.tags[id] == wanted[id]);
            }
            i = i + 1;
        }
        proof {
            assert(ids.take(i as int) =~= ids);
            assert forall|k: Seq<char>| tags@.tags.contains_key(k) == wanted.contains_key(k) by {
                assert(all.dom().contains(k) <==> ids.contains(k));
            }
            assert(tags@.tags =~= wanted);
        }
        let reg = TagRegistry { definitions, tags };
        assert(reg@ =~= RegistryView::initial(all, now));
        assert(reg@.store.tags.dom() =~= reg@.definitions.dom());
        Ok(reg)
    }

    /// The definitions.
    pub fn definitions(&self) -> (r: &TagDefinitionStore)
        ensures
            r@ == self@.definitions,
    {
        &self.definitions
    }

    /// The runtime state of the tags.
    pub fn tags(&self) -> (r: &TagStore)
        ensures
            r@ == self@.store,
    {
        &self.tags
    }

    /// The current state of the tag `id`.
    pub fn get_tag(&self, id: &str) -> (r: Result<&Tag, CoreError>)
        ensures
            match r {
                Ok(t) => self@.has_tag(id@) && t@ == self@.store.tags[id@],
                Err(e) => !self@.has_tag(id@) && e@ == CoreErrorView::TagNotFound(id@),
            },
    {
        self.tags.get(id)
    }

    /// The definition of the tag `id`.
    pub fn get_definition(&self, id: &str) -> (r: Result<&TagDefinition, CoreError>)
        ensures
            match r {
                Ok(d) => self@.definitions.contains_key(id@) && d@ == self@.definitions[id@],
                Err(e) => {
                    &&& !self@.definitions.contains_key(id@)
                    &&& e@ == CoreErrorView::DefinitionNotFound(id@)
                },
            },
    {
        self.definitions.get(id)
    }

    /// Update a runtime tag value, validated against the configured data type, as of now.
    pub fn update_tag_value(
        &mut self,
        id: &str,
        value: TagValue,
        quality: TagQuality,
        source_timestamp: Timestamp,
    ) -> (r: Result<Tag, CoreError>)
        ensures
            exists|now: Timestamp| is_clock_reading(now) &&
                final(self)@ == #[trigger] old(self)@.update(
                    id@,
                    value@,
                    quality@,
                    source_timestamp,
                    now,
                ),
            match r {
                Ok(t) => {
                    &&& old(self)@.update_fault(id@, value@) is None
                    &&& t@ == final(self)@.store.tags[id@]
                },
                Err(e) => old(self)@.update_fault(id@, value@) == Some(e@),
            },
            old(self)@.consistent() ==> final(self)@.consistent(),
    {
        let now = Timestamp::now();
        self.update_tag_value_at(id, value, quality, source_timestamp, now)
    }

    /// Update a runtime tag value, validated against the configured data type, as of `now`.
    pub fn update_tag_value_at(
        &mut self,
        id: &str,
        value: TagValue,
        quality: TagQuality,
        source_timestamp: Timestamp,
        now: Timestamp,
    ) -> (r: Result<Tag, CoreError>)
        ensures
            final(self)@ == old(self)@.update(id@, value@, quality@, source_timestamp, now),
            match r {
                Ok(t) => {
                    &&& old(self)@.update_fault(id@, value@) is None
                    &&& t@ == final(self)@.store.tags[id@]
                },
                Err(e) => old(self)@.update_fault(id@, value@) == Some(e@),
            },
            old(self)@.consistent() ==> final(self)@.consistent(),
    {
        proof {
            if self@.consistent() {
                update_keeps_consistency(self@, id@, value@, quality@, source_timestamp, now);
            }
        }
        let data_type = match self.definitions.get(id) {
            Ok(d) => d.data_type,
            Err(e) => {
                return Err(e);
            },
        };
        self.tags.update_value_with_expected_at(
            id,
            value,
            quality,
            source_timestamp,
            data_type,
            now,
        )
    }

    /// Set only the quality of a tag, as of now.
    pub fn set_tag_quality(&mut self, id: &str, quality: TagQuality) -> (r: Result<(), CoreError>)
        ensures
            exists|now: Timestamp| is_clock_reading(now) &&
                final(self)@ == #[trigger] old(self)@.set_quality(id@, quality@, now),
            match r {
                Ok(_) => old(self)@.has_tag(id@),
                Err(e) => !old(self)@.has_tag(id@) && e@ == CoreErrorView::TagNotFound(id@),
            },
            old(self)@.consistent() ==> final(self)@.consistent(),
    {
        let now = Timestamp::now();
        self.set_tag_quality_at(id, quality, now)
    }

    /// Set only the quality of a tag, as of `now`.
    pub fn set_tag_quality_at(&mut self, id: &str, quality: TagQuality, now: Timestamp) -> (r:
        Result<(), CoreError>)
        ensures
            final(self)@ == old(self)@.set_quality(id@, quality@, now),
            match r {
                Ok(_) => old(self)@.has_tag(id@),
                Err(e) => !old(self)@.has_tag(id@) && e@ == CoreErrorView::TagNotFound(id@),
            },
            old(self)@.consistent() ==> final(self)@.consistent(),
    {
        proof {
            if self@.consistent() {
                set_quality_keeps_consistency(self@, id@, quality@, now);
            }
        }
        self.tags.set_quality_at(id, quality, now)
    }

    /// All tag ids, in order.
    pub fn list_ids_sorted(&self) -> (r: Vec<String>)
        ensures
            lists(texts(r@), self@.store.tags.dom()),
    {
        self.tags.list_ids_sorted()
    }

    /// All definitions, in the order of their ids.
    pub fn all_definitions_sorted(&self) -> (r: Vec<TagDefinition>)
        ensures
            lists(ids_in_order(self@.definitions.dom()), self@.definitions.dom()),
            definition_views(r@) == sorted_definitions(self@.definitions),
    {
        self.definitions.all_definitions_sorted()
    }

    /// Subscribe to changes of tags. The result is the number by which the subscriber takes
    /// them.
    pub fn subscribe(&mut self) -> (r: usize)
        ensures
            r == old(self)@.store.mailboxes.len(),
            final(self)@ == (RegistryView {
                store: TagStoreView {
                    mailboxes: old(self)@.store.mailboxes.push(Seq::empty()),
                    ..old(self)@.store
                },
                ..old(self)@
            }),
    {
        self.tags.subscribe()
    }

    /// Take the oldest change that waits for a subscriber.
    pub fn next_change(&mut self, subscriber: usize) -> (r: Option<TagChange>)
        requires
            subscriber < old(self)@.store.mailboxes.len(),
        ensures
            final(self)@.definitions == old(self)@.definitions,
            final(self)@.store.tags == old(self)@.store.tags,
            match r {
                Some(c) => {
                    let waiting = old(self)@.store.mailboxes[subscriber as int];
                    &&& waiting.len() > 0
                    &&& c@ == waiting[0]
                    &&& final(self)@.store.mailboxes == old(self)@.store.mailboxes.update(
                        subscriber as int,
                        waiting.skip(1),
                    )
                },
                None => {
                    &&& old(self)@.store.mailboxes[subscriber as int].len() == 0
                    &&& final(self)@ == old(self)@
                },
            },
    {
        self.tags.next_change(subscriber)
    }
}

/// Updating a value keeps the registry consistent: a value of another type is not accepted.
pub proof fn update_keeps_consistency(
    reg: RegistryView,
    id: Seq<char>,
    value: TagValueView,
    quality: TagQualityView,
    source_ts: Timestamp,
    now: Timestamp,
)
    requires
        reg.consistent(),
    ensures
        reg.update(id, value, quality, source_ts, now).consistent(),
        reg.update(id, value, quality, source_ts, now).definitions == reg.definitions,
{
    let after = reg.update(id, value, quality, source_ts, now);
    assert(after.store.tags.dom() =~= reg.store.tags.dom());
}

/// Setting a quality keeps the registry consistent.
pub proof fn set_quality_keeps_consistency(
    reg: RegistryView,
    id: Seq<char>,
    quality: TagQualityView,
    now: Timestamp,
)
    requires
        reg.consistent(),
    ensures
        reg.set_quality(id, quality, now).consistent(),
        reg.set_quality(id, quality, now).definitions == reg.definitions,
{
    let after = reg.set_quality(id, quality, now);
    assert(after.store.tags.dom() =~= reg.store.tags.dom());
}

/// An accepted value is what is read afterwards, with the quality and source time it came
/// with; all other tags keep their state.
pub proof fn update_is_read_back(
    reg: RegistryView,
    id: Seq<char>,
    value: TagValueView,
    quality: TagQualityView,
    source_ts: Timestamp,
    now: Timestamp,
    other: Seq<char>,
)
    requires
        reg.update_fault(id, value) is None,
        other != id,
    ensures
        ({
            let after = reg.update(id, value, quality, source_ts, now);
            &&& after.has_tag(id)
            &&& after.store.tags[id].value == value
            &&& after.store.tags[id].quality == quality
            &&& after.store.tags[id].source_timestamp == source_ts
            &&& after.has_tag(other) == reg.has_tag(other)
            &&& reg.has_tag(other) ==> after.store.tags[other] == reg.store.tags[other]
        }),
{
}

/// A value that is not accepted changes nothing.
pub proof fn refused_update_changes_nothing(
    reg: RegistryView,
    id: Seq<char>,
    value: TagValueView,
    quality: TagQualityView,
    source_ts: Timestamp,
    now: Timestamp,
)
    requires
        reg.update_fault(id, value) is Some,
    ensures
        reg.update(id, value, quality, source_ts, now) == reg,
{
}

/// In a consistent registry a value is refused only for an unknown tag or a wrong type.
pub proof fn update_is_refused_for_id_or_type_only(
    reg: RegistryView,
    id: Seq<char>,
    value: TagValueView,
)
    requires
        reg.consistent(),
    ensures
        reg.update_fault(id, value) == (if !reg.definitions.contains_key(id) {
            Some(CoreErrorView::DefinitionNotFound(id))
        } else if type_of(value) != reg.definitions[id].data_type {
            Some(CoreErrorView::TypeMismatch(id))
        } else {
            None
        }),
{
}

/// Setting a quality leaves value and source time of the tag, and all of every other tag.
pub proof fn set_quality_leaves_the_rest(
    reg: RegistryView,
    id: Seq<char>,
    quality: TagQualityView,
    now: Timestamp,
    other: Seq<char>,
)
    requires
        reg.has_tag(id),
        other != id,
    ensures
        ({
            let after = reg.set_quality(id, quality, now);
            &&& after.store.tags[id].quality == quality
            &&& after.store.tags[id].value == reg.store.tags[id].value
            &&& after.store.tags[id].source_timestamp == reg.store.tags[id].source_timestamp
            &&& after.has_tag(other) == reg.has_tag(other)
            &&& reg.has_tag(other) ==> after.store.tags[other] == reg.store.tags[other]
        }),
{
}

} // verus!
