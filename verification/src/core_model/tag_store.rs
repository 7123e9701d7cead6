//! Runtime tag store: the current state of each tag, and the changes that subscribers have
//! not taken yet.

use crate::core_model::error::{CoreError, CoreErrorView};
use crate::core_model::sorted_map::{
    ascending, listing_is_unique, listing_with, lists, texts, SortedMap,
};
use crate::core_model::tag::{Tag, TagView};
use crate::core_model::tag_value::{
    type_of, TagDataType, TagQuality, TagQualityView, TagValue, TagValueView,
};
use crate::time::{is_clock_reading, Timestamp};
use std::collections::VecDeque;
use vstd::prelude::*;
use vstd::string::*;

verus! {

/// How many changes wait for a subscriber at most; further ones are dropped for it.
pub const MAILBOX_CAPACITY: usize = 128;

/// A change of a tag.
#[derive(Debug)]
pub struct TagChange {
    /// Id of the tag.
    pub tag_id: String,
    /// The tag after the change.
    pub tag: Tag,
}

/// What a [`TagChange`] says.
#[verifier::ext_equal]
pub ghost struct TagChangeView {
    pub tag_id: Seq<char>,
    pub tag: TagView,
}

impl View for TagChange {
    type V = TagChangeView;

    open spec fn view(&self) -> TagChangeView {
        TagChangeView { tag_id: self.tag_id@, tag: self.tag@ }
    }
}

impl Clone for TagChange {
    fn clone(&self) -> (r: TagChange)
        ensures
            r@ == self@,
    {
        TagChange { tag_id: self.tag_id.clone(), tag: self.tag.clone() }
    }
}

/// What a [`TagStore`] holds: the tags by id, and for each subscriber the changes that wait
/// for it, oldest first.
#[verifier::ext_equal]
pub ghost struct TagStoreView {
    pub tags: Map<Seq<char>, TagView>,
    pub mailboxes: Seq<Seq<TagChangeView>>,
}

/// A mailbox after a change was sent to it.
pub open spec fn delivered(mailbox: Seq<TagChangeView>, change: TagChangeView) -> Seq<
    TagChangeView,
> {
    if mailbox.len() < MAILBOX_CAPACITY {
        mailbox.push(change)
    } else {
        mailbox
    }
}

impl TagStoreView {
    /// A store without tags and subscribers.
    pub open spec fn empty() -> TagStoreView {
        TagStoreView { tags: Map::empty(), mailboxes: Seq::empty() }
    }

    /// The store after the state of tag `id` became `tag`, which every subscriber is sent.
    pub open spec fn put(self, id: Seq<char>, tag: TagView) -> TagStoreView {
        TagStoreView {
            tags: self.tags.insert(id, tag),
            mailboxes: Seq::new(
                self.mailboxes.len(),
                |i: int| delivered(self.mailboxes[i], TagChangeView { tag_id: id, tag }),
            ),
        }
    }

    /// The store after the quality of tag `id` was set; unchanged where there is no such tag.
    pub open spec fn set_quality(
        self,
        id: Seq<char>,
        quality: TagQualityView,
        now: Timestamp,
    ) -> TagStoreView {
        if self.tags.contains_key(id) {
            self.put(id, self.tags[id].with_quality(quality, now))
        } else {
            self
        }
    }

    /// Why a value is not accepted for tag `id` of type `expected`, if it is not.
    pub open spec fn update_fault(
        self,
        id: Seq<char>,
        value: TagValueView,
        expected: TagDataType,
    ) -> Option<CoreErrorView> {
        if type_of(value) != expected {
            Some(CoreErrorView::TypeMismatch(id))
        } else if !self.tags.contains_key(id) {
            Some(CoreErrorView::TagNotFound(id))
        } else {
            None
        }
    }

    /// The store after a value was read for tag `id` of type `expected`; unchanged where the
    /// value is not accepted.
    pub open spec fn update(
        self,
        id: Seq<char>,
        value: TagValueView,
        quality: TagQualityView,
        source_ts: Timestamp,
        expected: TagDataType,
        now: Timestamp,
    ) -> TagStoreView {
        if self.update_fault(id, value, expected) is None {
            self.put(id, self.tags[id].read(value, quality, source_ts, now))
        } else {
            self
        }
    }
}

struct Mailbox {
    queue: VecDeque<TagChange>,
}

spec fn mailbox_view(m: Mailbox) -> Seq<TagChangeView> {
    Seq::new(m.queue@.len(), |i: int| m.queue@[i]@)
}

/// Runtime store of [`Tag`]s.
pub struct TagStore {
    tags: SortedMap<Tag>,
    mailboxes: Vec<Mailbox>,
}

impl View for TagStore {
    type V = TagStoreView;

    closed spec fn view(&self) -> TagStoreView {
        TagStoreView {
            tags: self.tags@.map_values(|t: Tag| t@),
            mailboxes: Seq::new(self.mailboxes@.len(), |i: int| mailbox_view(self.mailboxes@[i])),
        }
    }
}

impl TagStore {
    /// A store without tags and subscribers.
    pub fn new() -> (r: TagStore)
        ensures
            r@ == TagStoreView::empty(),
    {
        let r = TagStore { tags: SortedMap::new(), mailboxes: Vec::new() };
        assert(r@.tags =~= Map::empty());
        assert(r@.mailboxes =~= Seq::empty());
        r
    }

    /// Send a change to all subscribers that have room for it.
    fn broadcast_change(&mut self, tag_id: &str, tag: &Tag)
        ensures
            final(self).tags == old(self).tags,
            final(self)@.mailboxes == old(self)@.put(tag_id@, tag@).mailboxes,
    {
        let ghost before = self@.mailboxes;
        let ghost change = TagChangeView { tag_id: tag_id@, tag: tag@ };
        let n = self.mailboxes.len();
        let mut i: usize = 0;
        while i < n
            invariant
                i <= n,
                n == self.mailboxes@.len() == before.len(),
                self.tags == old(self).tags,
                change == (TagChangeView { tag_id: tag_id@, tag: tag@ }),
                forall|k: int|
                    0 <= k < n ==> mailbox_view(#[trigger] self.mailboxes@[k]) == (if k < i {
                        delivered(before[k], change)
                    } else {
                        before[k]
                    }),
            decreases n - i,
        {
            if self.mailboxes[i].queue.len() < MAILBOX_CAPACITY {
                let ghost boxes = self.mailboxes@;
                let item = TagChange { tag_id: tag_id.to_owned(), tag: tag.clone() };
                self.mailboxes[i].queue.push_back(item);
                assert(mailbox_view(self.mailboxes@[i as int]) =~= delivered(
                    mailbox_view(boxes[i as int]),
                    change,
                ));
            }
            i = i + 1;
        }
        assert(self@.mailboxes =~= old(self)@.put(tag_id@, tag@).mailboxes);
    }

    /// Make `tag` the state of the tag `id`, new or not, and tell the subscribers.
    pub fn insert(&mut self, id: String, tag: Tag)
        ensures
            final(self)@ == old(self)@.put(id@, tag@),
    {
        let copy = tag.clone();
        let key = id.clone();
        let ghost before = *self;
        self.tags.insert(key, copy);
        assert(self.tags@.map_values(|t: Tag| t@) =~= before.tags@.map_values(
            |t: Tag| t@,
        ).insert(id@, tag@));
        assert(self@.mailboxes =~= before@.mailboxes);
        self.broadcast_change(id.as_str(), &tag);
    }

    /// The current state of the tag `id`.
    pub fn get(&self, id: &str) -> (r: Result<&Tag, CoreError>)
        ensures
            match r {
                Ok(t) => self@.tags.contains_key(id@) && t@ == self@.tags[id@],
                Err(e) => !self@.tags.contains_key(id@) && e@ == CoreErrorView::TagNotFound(id@),
            },
    {
        match self.tags.get(id) {
            Some(t) => Ok(t),
            None => Err(CoreError::TagNotFound(id.to_owned())),
        }
    }

    /// Subscribe to changes. The result is the number by which the subscriber takes them.
    pub fn subscribe(&mut self) -> (r: usize)
        ensures
            r == old(self)@.mailboxes.len(),
            final(self)@.tags == old(self)@.tags,
            final(self)@.mailboxes == old(self)@.mailboxes.push(Seq::empty()),
    {
        let n = self.mailboxes.len();
        let ghost before = self@;
        let m = Mailbox { queue: VecDeque::new() };
        assert(mailbox_view(m) =~= Seq::empty());
        self.mailboxes.push(m);
        assert(self@.mailboxes =~= before.mailboxes.push(Seq::empty()));
        n
    }

    /// Take the oldest change that waits for a subscriber.
    pub fn next_change(&mut self, subscriber: usize) -> (r: Option<TagChange>)
        requires
            subscriber < old(self)@.mailboxes.len(),
        ensures
            final(self)@.tags == old(self)@.tags,
            match r {
                Some(c) => {
                    let waiting = old(self)@.mailboxes[subscriber as int];
                    &&& waiting.len() > 0
                    &&& c@ == waiting[0]
                    &&& final(self)@.mailboxes == old(self)@.mailboxes.update(
                        subscriber as int,
                        waiting.skip(1),
                    )
                },
                None => {
                    &&& old(self)@.mailboxes[subscriber as int].len() == 0
                    &&& final(self)@.mailboxes == old(self)@.mailboxes
                },
            },
    {
        let ghost before = self@.mailboxes;
        let ghost boxes = self.mailboxes@;
        let r = self.mailboxes[subscriber].queue.pop_front();
        proof {
            if r is Some {
                assert(mailbox_view(self.mailboxes@[subscriber as int]) =~= mailbox_view(
                    boxes[subscriber as int],
                ).skip(1));
                assert(self@.mailboxes =~= before.update(
                    subscriber as int,
                    before[subscriber as int].skip(1),
                ));
            } else {
                assert(self@.mailboxes =~= before);
            }
        }
        r
    }

    /// Update a tag's value with type checking, as of now.
    pub fn update_value_with_expected(
        &mut self,
        id: &str,
        value: TagValue,
        quality: TagQuality,
        source_ts: Timestamp,
        expected: TagDataType,
    ) -> (r: Result<Tag, CoreError>)
        ensures
            exists|now: Timestamp| is_clock_reading(now) &&
                final(self)@ == #[trigger] old(self)@.update(
                    id@,
                    value@,
                    quality@,
                    source_ts,
                    expected,
                    now,
                ),
            match r {
                Ok(t) => {
                    &&& old(self)@.update_fault(id@, value@, expected) is None
                    &&& t@ == final(self)@.tags[id@]
                },
                Err(e) => old(self)@.update_fault(id@, value@, expected) == Some(e@),
            },
    {
        let now = Timestamp::now();
        self.update_value_with_expected_at(id, value, quality, source_ts, expected, now)
    }

    /// Update a tag's value with type checking, as of `now`.
    pub fn update_value_with_expected_at(
        &mut self,
        id: &str,
        value: TagValue,
        quality: TagQuality,
        source_ts: Timestamp,
        expected: TagDataType,
        now: Timestamp,
    ) -> (r: Result<Tag, CoreError>)
        ensures
            final(self)@ == old(self)@.update(id@, value@, quality@, source_ts, expected, now),
            match r {
                Ok(t) => {
                    &&& old(self)@.update_fault(id@, value@, expected) is None
                    &&& t@ == final(self)@.tags[id@]
                },
                Err(e) => old(self)@.update_fault(id@, value@, expected) == Some(e@),
            },
    {
        if !value.matches(&expected) {
            return Err(CoreError::TypeMismatch(id.to_owned()));
        }
        let mut tag = match self.get(id) {
            Ok(t) => t.clone(),
            Err(e) => {
                return Err(e);
            },
        };
        tag.apply_read_at(value, quality, source_ts, now);
        self.insert(id.to_owned(), tag.clone());
        Ok(tag)
    }

    /// Set only the quality of an existing tag, as of now.
    pub fn set_quality(&mut self, id: &str, quality: TagQuality) -> (r: Result<(), CoreError>)
        ensures
            exists|now: Timestamp| is_clock_reading(now) &&
                final(self)@ == #[trigger] old(self)@.set_quality(id@, quality@, now),
            match r {
                Ok(_) => old(self)@.tags.contains_key(id@),
                Err(e) => !old(self)@.tags.contains_key(id@) && e@ == CoreErrorView::TagNotFound(
                    id@,
                ),
            },
    {
        let now = Timestamp::now();
        self.set_quality_at(id, quality, now)
    }

    /// Set only the quality of an existing tag, as of `now`.
    pub fn set_quality_at(&mut self, id: &str, quality: TagQuality, now: Timestamp) -> (r: Result<
        (),
        CoreError,
    >)
        ensures
            final(self)@ == old(self)@.set_quality(id@, quality@, now),
            match r {
                Ok(_) => old(self)@.tags.contains_key(id@),
                Err(e) => !old(self)@.tags.contains_key(id@) && e@ == CoreErrorView::TagNotFound(
                    id@,
                ),
            },
    {
        let mut tag = match self.get(id) {
            Ok(t) => t.clone(),
            Err(e) => {
                return Err(e);
            },
        };
        tag.set_quality_at(quality, now);
        self.insert(id.to_owned(), tag);
        Ok(())
    }

    /// All tag ids, in order.
    pub fn list_ids_sorted(&self) -> (r: Vec<String>)
        ensures
            lists(texts(r@), self@.tags.dom()),
    {
        assert(self@.tags.dom() =~= self.tags@.dom());
        self.tags.keys_in_order()
    }

    /// Hand the state of a tag to `f`; make what it gives back the new state, as of now, and
    /// tell the subscribers. Where `f` fails nothing changes.
    pub fn try_update_with<F, R>(&mut self, id: &str, f: F) -> (r: Result<R, CoreError>) where
        F: FnOnce(Tag) -> Result<(Tag, R), CoreError>,

        requires
            forall|t: Tag|
                old(self)@.tags.contains_key(id@) && t@ == old(self)@.tags[id@]
                    ==> #[trigger] f.requires((t,)),
        ensures
            !old(self)@.tags.contains_key(id@) ==> {
                &&& final(self)@ == old(self)@
                &&& r is Err
                &&& r->Err_0@ == CoreErrorView::TagNotFound(id@)
            },
            old(self)@.tags.contains_key(id@) ==> exists|t: Tag, out: Result<(Tag, R), CoreError>|
                {
                    &&& #[trigger] f.ensures((t,), out)
                    &&& t@ == old(self)@.tags[id@]
                    &&& match out {
                        Ok(p) => r == Ok::<R, CoreError>(p.1) && exists|now: Timestamp| is_clock_reading(now) &&
                            final(self)@ == old(self)@.put(id@, #[trigger] p.0@.touched(now)),
                        Err(e) => r == Err::<R, CoreError>(e) && final(self)@ == old(self)@,
                    }
                },
    {
        let tag = match self.get(id) {
            Ok(t) => t.clone(),
            Err(e) => {
                return Err(e);
            },
        };
        let ghost given = tag;
        let out = f(tag);
        let ghost result = out;
        match out {
            Ok((mut t, x)) => {
                let ghost changed = t@;
                let now = Timestamp::now();
                t.touch_at(now);
                self.insert(id.to_owned(), t);
                proof {
                    assert(f.ensures((given,), result));
                    assert(self@ == old(self)@.put(id@, changed.touched(now)));
                }
                Ok(x)
            },
            Err(e) => {
                assert(f.ensures((given,), result));
                Err(e)
            },
        }
    }

    /// Number of tags.
    pub fn len(&self) -> (r: usize)
        ensures
            exists|ids: Seq<Seq<char>>| #[trigger] lists(ids, self@.tags.dom()) && r == ids.len(),
    {
        assert(self@.tags.dom() =~= self.tags@.dom());
        let n = self.tags.len();
        assert(lists(self.tags.keys(), self@.tags.dom()));
        n
    }

    /// Whether there are no tags.
    pub fn is_empty(&self) -> (r: bool)
        ensures
            r == (self@.tags == Map::<Seq<char>, TagView>::empty()),
    {
        let n = self.len();
        proof {
            let ids = choose|ids: Seq<Seq<char>>| #[trigger]
                lists(ids, self@.tags.dom()) && n == ids.len();
            if n == 0 {
                assert forall|k: Seq<char>| !(#[trigger] self@.tags.contains_key(k)) by {
                    assert(self@.tags.dom().contains(k) <==> ids.contains(k));
                }
                assert(self@.tags =~= Map::<Seq<char>, TagView>::empty());
            } else {
                assert(ids.contains(ids[0]));
                assert(self@.tags.dom().contains(ids[0]));
            }
        }
        n == 0
    }
}

impl Default for TagStore {
    fn default() -> (r: TagStore)
        ensures
            r@ == TagStoreView::empty(),
    {
        TagStore::new()
    }
}

/// A change reaches every subscriber that has room, as the newest of what waits for it.
pub proof fn change_reaches_subscribers(
    store: TagStoreView,
    id: Seq<char>,
    tag: TagView,
    subscriber: int,
)
    requires
        0 <= subscriber < store.mailboxes.len(),
        store.mailboxes[subscriber].len() < MAILBOX_CAPACITY,
    ensures
        store.put(id, tag).mailboxes[subscriber] == store.mailboxes[subscriber].push(
            TagChangeView { tag_id: id, tag },
        ),
{
}

/// What waits for a subscriber never grows beyond the capacity, and no change that waits is
/// lost or moved by a later one.
pub proof fn waiting_changes_stay(
    store: TagStoreView,
    id: Seq<char>,
    tag: TagView,
    subscriber: int,
)
    requires
        0 <= subscriber < store.mailboxes.len(),
        store.mailboxes[subscriber].len() <= MAILBOX_CAPACITY,
    ensures
        store.put(id, tag).mailboxes.len() == store.mailboxes.len(),
        store.put(id, tag).mailboxes[subscriber].len() <= MAILBOX_CAPACITY,
        store.mailboxes[subscriber].is_prefix_of(store.put(id, tag).mailboxes[subscriber]),
{
}

/// After an insertion the tag is there as it was put, and every other tag is as it was. The ids in
/// order are strictly ascending; they are those of before and the inserted one, and one more than
/// before exactly where that one was absent.
pub proof fn insertion_adds_its_id(
    store: TagStoreView,
    id: Seq<char>,
    tag: TagView,
    ids_before: Seq<Seq<char>>,
    ids_after: Seq<Seq<char>>,
)
    requires
        lists(ids_before, store.tags.dom()),
        lists(ids_after, store.put(id, tag).tags.dom()),
    ensures
        store.put(id, tag).tags.contains_key(id),
        store.put(id, tag).tags[id] == tag,
        forall|other: Seq<char>|
            other != id ==> {
                &&& #[trigger] store.put(id, tag).tags.contains_key(other)
                    == store.tags.contains_key(other)
                &&& store.tags.contains_key(other) ==> store.put(id, tag).tags[other]
                    == store.tags[other]
            },
        ascending(ids_after),
        forall|k: Seq<char>| #[trigger]
            ids_after.contains(k) <==> ids_before.contains(k) || k == id,
        ids_after.len() == ids_before.len() + (if store.tags.contains_key(id) {
            0int
        } else {
            1int
        }),
{
    let dom = store.tags.dom();
    let after = store.put(id, tag).tags.dom();
    assert(after =~= dom.insert(id));
    let all = listing_with(ids_before, dom, id);
    listing_is_unique(all, ids_after, after);
    assert forall|k: Seq<char>| #[trigger] ids_after.contains(k) <==> ids_before.contains(k) || k
        == id by {
        assert(after.contains(k) <==> ids_after.contains(k));
        assert(dom.contains(k) <==> ids_before.contains(k));
    }
}

/// A call that may change a store, with what it was given.
pub ghost enum StoreCall {
    /// [`TagStore::insert`].
    Insert { id: Seq<char>, tag: TagView },
    /// [`TagStore::update_value_with_expected`].
    Update {
        id: Seq<char>,
        value: TagValueView,
        quality: TagQualityView,
        source_ts: Timestamp,
        expected: TagDataType,
        now: Timestamp,
    },
    /// [`TagStore::set_quality`].
    SetQuality { id: Seq<char>, quality: TagQualityView, now: Timestamp },
    /// [`TagStore::try_update_with`], with the state that the function gave back, if it did not
    /// fail.
    UpdateWith { id: Seq<char>, given_back: Option<TagView>, now: Timestamp },
}

impl TagStoreView {
    /// The store after a call.
    pub open spec fn after(self, call: StoreCall) -> TagStoreView {
        match call {
            StoreCall::Insert { id, tag } => self.put(id, tag),
            StoreCall::Update { id, value, quality, source_ts, expected, now } => self.update(
                id,
                value,
                quality,
                source_ts,
                expected,
                now,
            ),
            StoreCall::SetQuality { id, quality, now } => self.set_quality(id, quality, now),
            StoreCall::UpdateWith { id, given_back, now } => match given_back {
                Some(t) => if self.tags.contains_key(id) {
                    self.put(id, t.touched(now))
                } else {
                    self
                },
                None => self,
            },
        }
    }

    /// Whether a call succeeds.
    pub open spec fn accepts(self, call: StoreCall) -> bool {
        match call {
            StoreCall::Insert { .. } => true,
            StoreCall::Update { id, value, expected, .. } => self.update_fault(
                id,
                value,
                expected,
            ) is None,
            StoreCall::SetQuality { id, .. } => self.tags.contains_key(id),
            StoreCall::UpdateWith { id, given_back, .. } => self.tags.contains_key(id)
                && given_back is Some,
        }
    }

    /// The store after calls, made in order.
    pub open spec fn after_all(self, calls: Seq<StoreCall>) -> TagStoreView
        decreases calls.len(),
    {
        if calls.len() == 0 {
            self
        } else {
            self.after_all(calls.drop_last()).after(calls.last())
        }
    }

    /// The changes that calls make: for each that succeeds, in order, the id of its tag and the
    /// state of the tag after it.
    pub open spec fn changes(self, calls: Seq<StoreCall>) -> Seq<TagChangeView>
        decreases calls.len(),
    {
        if calls.len() == 0 {
            Seq::empty()
        } else {
            let before = self.after_all(calls.drop_last());
            let changes = self.changes(calls.drop_last());
            let call = calls.last();
            if before.accepts(call) {
                changes.push(
                    TagChangeView {
                        tag_id: called_id(call),
                        tag: before.after(call).tags[called_id(call)],
                    },
                )
            } else {
                changes
            }
        }
    }
}

/// The id that a call was given.
pub open spec fn called_id(call: StoreCall) -> Seq<char> {
    match call {
        StoreCall::Insert { id, .. } => id,
        StoreCall::Update { id, .. } => id,
        StoreCall::SetQuality { id, .. } => id,
        StoreCall::UpdateWith { id, .. } => id,
    }
}

/// A call that fails changes nothing and sends nothing. One that succeeds sends every subscriber
/// the state of its tag after the call.
pub proof fn call_sends_its_change(store: TagStoreView, call: StoreCall)
    ensures
        !store.accepts(call) ==> store.after(call) == store,
        store.accepts(call) ==> store.after(call) == store.put(
            called_id(call),
            store.after(call).tags[called_id(call)],
        ),
{
}

/// The changes that calls make reach a subscriber that has room for them: they wait for it in the
/// order of the calls, behind what waited before, and nothing else does.
pub proof fn changes_reach_subscriber_in_order(
    store: TagStoreView,
    calls: Seq<StoreCall>,
    subscriber: int,
)
    requires
        0 <= subscriber < store.mailboxes.len(),
        store.mailboxes[subscriber].len() + store.changes(calls).len() <= MAILBOX_CAPACITY,
    ensures
        store.after_all(calls).mailboxes.len() == store.mailboxes.len(),
        store.after_all(calls).mailboxes[subscriber] == store.mailboxes[subscriber]
            + store.changes(calls),
    decreases calls.len(),
{
    let waiting = store.mailboxes[subscriber];
    if calls.len() == 0 {
        assert(waiting + store.changes(calls) =~= waiting);
    } else {
        let call = calls.last();
        let before = store.after_all(calls.drop_last());
        changes_reach_subscriber_in_order(store, calls.drop_last(), subscriber);
        call_sends_its_change(before, call);
        if before.accepts(call) {
            let change = TagChangeView {
                tag_id: called_id(call),
                tag: before.after(call).tags[called_id(call)],
            };
            assert(before.mailboxes[subscriber].push(change) =~= waiting + store.changes(calls));
        }
    }
}

/// Each call makes one change at most, and exactly one where all succeed.
pub proof fn calls_make_one_change_each(store: TagStoreView, calls: Seq<StoreCall>)
    ensures
        store.changes(calls).len() <= calls.len(),
        (forall|i: int|
            0 <= i < calls.len() ==> store.after_all(calls.take(i)).accepts(#[trigger] calls[i]))
            ==> store.changes(calls).len() == calls.len() && forall|i: int|
            0 <= i < calls.len() ==> (#[trigger] store.changes(calls)[i]) == (TagChangeView {
                tag_id: called_id(calls[i]),
                tag: store.after_all(calls.take(i + 1)).tags[called_id(calls[i])],
            }),
    decreases calls.len(),
{
    if calls.len() > 0 {
        let front = calls.drop_last();
        let n = front.len() as int;
        calls_make_one_change_each(store, front);
        assert(calls.take(n) =~= front);
        assert(calls.take(n + 1) =~= calls);
        assert forall|i: int| 0 <= i < n implies #[trigger] front.take(i) =~= calls.take(i) by {}
        if forall|i: int|
            0 <= i < calls.len() ==> store.after_all(calls.take(i)).accepts(#[trigger] calls[i]) {
            assert forall|i: int| 0 <= i < n implies store.after_all(front.take(i)).accepts(
                #[trigger] front[i],
            ) by {
                assert(front[i] == calls[i]);
                assert(front.take(i) =~= calls.take(i));
            }
            assert(store.after_all(calls.take(n)).accepts(calls[n]));
            assert forall|i: int| 0 <= i < calls.len() implies (#[trigger] store.changes(calls)[i])
                == (TagChangeView {
                tag_id: called_id(calls[i]),
                tag: store.after_all(calls.take(i + 1)).tags[called_id(calls[i])],
            }) by {
                if i < n {
                    assert(store.changes(calls)[i] == store.changes(front)[i]);
                    assert(front.take(i + 1) =~= calls.take(i + 1));
                    assert(front[i] == calls[i]);
                }
            }
        }
    }
}

/// A new subscriber gets, of up to as many calls as its mailbox holds, all of which succeed, one
/// change for each, in the order of the calls, with the id of the changed tag and its state after
/// that call; of calls made before it subscribed it gets nothing.
pub proof fn new_subscriber_gets_each_change(store: TagStoreView, calls: Seq<StoreCall>)
    requires
        calls.len() <= MAILBOX_CAPACITY,
    ensures
        ({
            let subscribed = TagStoreView {
                mailboxes: store.mailboxes.push(Seq::empty()),
                ..store
            };
            let waiting = subscribed.after_all(calls).mailboxes[store.mailboxes.len() as int];
            &&& waiting == subscribed.changes(calls)
            &&& (forall|i: int|
                0 <= i < calls.len() ==> subscribed.after_all(calls.take(i)).accepts(
                    #[trigger] calls[i],
                )) ==> {
                &&& waiting.len() == calls.len()
                &&& forall|i: int|
                    0 <= i < calls.len() ==> (#[trigger] waiting[i]) == (TagChangeView {
                        tag_id: called_id(calls[i]),
                        tag: subscribed.after_all(calls.take(i + 1)).tags[called_id(calls[i])],
                    })
            }
        }),
{
    let subscribed = TagStoreView { mailboxes: store.mailboxes.push(Seq::empty()), ..store };
    let s = store.mailboxes.len() as int;
    calls_make_one_change_each(subscribed, calls);
    changes_reach_subscriber_in_order(subscribed, calls, s);
    assert(Seq::empty() + subscribed.changes(calls) =~= subscribed.changes(calls));
}

/// What is read of a tag after a change is what was put; every other tag is as it was.
pub proof fn put_changes_one_tag(
    store: TagStoreView,
    id: Seq<char>,
    tag: TagView,
    other: Seq<char>,
)
    requires
        other != id,
    ensures
        store.put(id, tag).tags[id] == tag,
        store.put(id, tag).tags.contains_key(other) == store.tags.contains_key(other),
        store.tags.contains_key(other) ==> store.put(id, tag).tags[other] == store.tags[other],
{
}

} // verus!
