//! Read-only store of validated tag definitions.

use crate::core_model::error::{CoreError, CoreErrorView};
use crate::core_model::sorted_map::{ascending, listing_is_unique, listing_with, lists, SortedMap};
use crate::core_model::tag_definition::{TagDefinition, TagDefinitionView};
use crate::text;
use crate::text::{precedes, precedes_is_irreflexive};
use vstd::prelude::*;
use vstd::string::*;

verus! {

/// What the definitions of a sequence say.
pub open spec fn definition_views(defs: Seq<TagDefinition>) -> Seq<TagDefinitionView> {
    Seq::new(defs.len(), |i: int| defs[i]@)
}

/// The ids of a set, in order.
pub open spec fn ids_in_order(dom: Set<Seq<char>>) -> Seq<Seq<char>> {
    choose|ids: Seq<Seq<char>>| lists(ids, dom)
}

/// Definitions, in the order of their ids.
pub open spec fn sorted_definitions(m: Map<Seq<char>, TagDefinitionView>) -> Seq<
    TagDefinitionView,
> {
    let ids = ids_in_order(m.dom());
    Seq::new(ids.len(), |i: int| m[ids[i]])
}

/// Whether a definition of `defs` has the id `id`.
pub open spec fn defines(defs: Seq<TagDefinitionView>, id: Seq<char>) -> bool {
    exists|i: int| 0 <= i < defs.len() && (#[trigger] defs[i]).id == id
}

/// What is wrong with a sequence of definitions: of the first definition that is not valid in
/// itself or that repeats an earlier id, its fault.
pub open spec fn definitions_fault(defs: Seq<TagDefinitionView>) -> Option<CoreErrorView>
    decreases defs.len(),
{
    if defs.len() == 0 {
        None
    } else {
        match definitions_fault(defs.drop_last()) {
            Some(e) => Some(e),
            None => match defs.last().fault() {
                Some(e) => Some(e),
                None => if defines(defs.drop_last(), defs.last().id) {
                    Some(
                        CoreErrorView::InvalidConfig(
                            "Duplicate TagDefinition id: "@ + defs.last().id,
                        ),
                    )
                } else {
                    None
                },
            },
        }
    }
}

/// The definitions of a sequence, by id.
pub open spec fn definitions_by_id(defs: Seq<TagDefinitionView>) -> Map<
    Seq<char>,
    TagDefinitionView,
>
    decreases defs.len(),
{
    if defs.len() == 0 {
        Map::empty()
    } else {
        definitions_by_id(defs.drop_last()).insert(defs.last().id, defs.last())
    }
}

/// The ids under which definitions stand are those of the sequence.
pub proof fn definitions_by_id_has_each_id(defs: Seq<TagDefinitionView>)
    ensures
        forall|id: Seq<char>| #[trigger] definitions_by_id(defs).contains_key(id) <==> defines(
            defs,
            id,
        ),
        forall|id: Seq<char>|
            definitions_by_id(defs).contains_key(id) ==> (#[trigger] definitions_by_id(
                defs,
            )[id]).id == id,
    decreases defs.len(),
{
    if defs.len() > 0 {
        let rest = defs.drop_last();
        definitions_by_id_has_each_id(rest);
        assert forall|id: Seq<char>| #[trigger] definitions_by_id(defs).contains_key(
            id,
        ) <==> defines(defs, id) by {
            if defines(rest, id) {
                let i = choose|i: int| 0 <= i < rest.len() && (#[trigger] rest[i]).id == id;
                assert(defs[i].id == id);
            }
            if defs.last().id == id {
                assert(defs[defs.len() - 1].id == id);
            }
            if defines(defs, id) {
                let i = choose|i: int| 0 <= i < defs.len() && (#[trigger] defs[i]).id == id;
                if i < rest.len() {
                    assert(rest[i].id == id);
                }
            }
        }
    }
}

/// In a sequence of definitions without fault, each one stands under its own id.
pub proof fn faultless_definitions_stand_under_their_ids(defs: Seq<TagDefinitionView>, i: int)
    requires
        definitions_fault(defs) is None,
        0 <= i < defs.len(),
    ensures
        definitions_by_id(defs).contains_key(defs[i].id),
        definitions_by_id(defs)[defs[i].id] == defs[i],
        defs[i].fault() is None,
    decreases defs.len(),
{
    let rest = defs.drop_last();
    if i < rest.len() {
        faultless_definitions_stand_under_their_ids(rest, i);
        assert(rest[i].id == defs[i].id);
        assert(defines(rest, defs[i].id));
        assert(defs.last().id != defs[i].id);
    }
}

/// Each definition is valid in itself, and no two have one id.
pub open spec fn valid_and_distinct(defs: Seq<TagDefinitionView>) -> bool {
    &&& forall|i: int| 0 <= i < defs.len() ==> (#[trigger] defs[i]).fault() is None
    &&& forall|i: int, j: int|
        0 <= i < j < defs.len() ==> (#[trigger] defs[i]).id != (#[trigger] defs[j]).id
}

/// Definitions are without fault exactly where each is valid in itself and no two have one id.
pub proof fn faultless_definitions_are_valid_and_distinct(defs: Seq<TagDefinitionView>)
    ensures
        definitions_fault(defs) is None <==> valid_and_distinct(defs),
    decreases defs.len(),
{
    if defs.len() > 0 {
        let rest = defs.drop_last();
        let n = rest.len() as int;
        faultless_definitions_are_valid_and_distinct(rest);
        if valid_and_distinct(defs) {
            assert forall|i: int| 0 <= i < rest.len() implies (
            #[trigger] rest[i]).fault() is None by {
                assert(rest[i] == defs[i]);
            }
            assert forall|i: int, j: int| 0 <= i < j < rest.len() implies (
            #[trigger] rest[i]).id != (#[trigger] rest[j]).id by {
                assert(defs[i].id != defs[j].id);
            }
            assert(defs[n].fault() is None);
            if defines(rest, defs.last().id) {
                let i = choose|i: int|
                    0 <= i < rest.len() && (#[trigger] rest[i]).id == defs.last().id;
                assert(defs[i].id != defs[n].id);
            }
        }
        if definitions_fault(defs) is None {
            assert forall|i: int| 0 <= i < defs.len() implies (
            #[trigger] defs[i]).fault() is None by {
                if i < n {
                    assert(rest[i] == defs[i]);
                }
            }
            assert forall|i: int, j: int| 0 <= i < j < defs.len() implies (
            #[trigger] defs[i]).id != (#[trigger] defs[j]).id by {
                assert(rest[i] == defs[i]);
                if j < n {
                    assert(rest[j] == defs[j]);
                } else {
                    assert(!defines(rest, defs.last().id));
                }
            }
        }
    }
}

proof fn same_elements_of_permutations(a: Seq<TagDefinitionView>, b: Seq<TagDefinitionView>)
    requires
        a.to_multiset() == b.to_multiset(),
    ensures
        forall|d: TagDefinitionView| #[trigger] a.contains(d) <==> b.contains(d),
{
    broadcast use vstd::seq_lib::group_to_multiset_ensures;

    assert forall|d: TagDefinitionView| #[trigger] a.contains(d) <==> b.contains(d) by {
        assert(a.contains(d) <==> a.to_multiset().count(d) > 0);
        assert(b.contains(d) <==> b.to_multiset().count(d) > 0);
    }
}

proof fn distinct_ids_are_no_duplicates(defs: Seq<TagDefinitionView>)
    requires
        valid_and_distinct(defs),
    ensures
        defs.no_duplicates(),
{
    assert forall|i: int, j: int| 0 <= i < defs.len() && 0 <= j < defs.len() && i != j implies defs[i]
        != defs[j] by {
        if i < j {
            assert(defs[i].id != defs[j].id);
        } else {
            assert(defs[j].id != defs[i].id);
        }
    }
}

/// Definitions that are a permutation of faultless ones are faultless, and stand under the same
/// ids.
pub proof fn order_of_definitions_does_not_matter(
    a: Seq<TagDefinitionView>,
    b: Seq<TagDefinitionView>,
)
    requires
        a.to_multiset() == b.to_multiset(),
        definitions_fault(a) is None,
    ensures
        definitions_fault(b) is None,
        definitions_by_id(a) == definitions_by_id(b),
        sorted_definitions(definitions_by_id(a)) == sorted_definitions(definitions_by_id(b)),
{
    faultless_definitions_are_valid_and_distinct(a);
    faultless_definitions_are_valid_and_distinct(b);
    same_elements_of_permutations(a, b);
    distinct_ids_are_no_duplicates(a);
    a.lemma_multiset_has_no_duplicates();
    b.lemma_multiset_has_no_duplicates_conv();
    assert forall|i: int| 0 <= i < b.len() implies (#[trigger] b[i]).fault() is None by {
        assert(b.contains(b[i]));
        assert(a.contains(b[i]));
        let k = choose|k: int| 0 <= k < a.len() && a[k] == b[i];
        assert(a[k].fault() is None);
    }
    assert forall|i: int, j: int| 0 <= i < j < b.len() implies (#[trigger] b[i]).id != (
    #[trigger] b[j]).id by {
        assert(b.contains(b[i]) && b.contains(b[j]));
        assert(a.contains(b[i]) && a.contains(b[j]));
        let k = choose|k: int| 0 <= k < a.len() && a[k] == b[i];
        let l = choose|l: int| 0 <= l < a.len() && a[l] == b[j];
        assert(b[i] != b[j]);
        if k < l {
            assert(a[k].id != a[l].id);
        } else {
            assert(a[l].id != a[k].id);
        }
    }
    assert(valid_and_distinct(b));
    let x = definitions_by_id(a);
    let y = definitions_by_id(b);
    definitions_by_id_has_each_id(a);
    definitions_by_id_has_each_id(b);
    assert forall|id: Seq<char>| #[trigger] x.contains_key(id) <==> y.contains_key(id) by {
        if defines(a, id) {
            let i = choose|i: int| 0 <= i < a.len() && (#[trigger] a[i]).id == id;
            assert(a.contains(a[i]));
            assert(b.contains(a[i]));
            let k = choose|k: int| 0 <= k < b.len() && b[k] == a[i];
            assert(b[k].id == id);
        }
        if defines(b, id) {
            let i = choose|i: int| 0 <= i < b.len() && (#[trigger] b[i]).id == id;
            assert(b.contains(b[i]));
            assert(a.contains(b[i]));
            let k = choose|k: int| 0 <= k < a.len() && a[k] == b[i];
            assert(a[k].id == id);
        }
    }
    assert forall|id: Seq<char>| #[trigger] x.contains_key(id) implies x[id] == y[id] by {
        let i = choose|i: int| 0 <= i < a.len() && (#[trigger] a[i]).id == id;
        assert(a.contains(a[i]));
        let k = choose|k: int| 0 <= k < b.len() && b[k] == a[i];
        faultless_definitions_stand_under_their_ids(a, i);
        faultless_definitions_stand_under_their_ids(b, k);
    }
    assert(x =~= y);
}

/// The ids of definitions can be listed, and as many are listed as there are definitions where
/// these are without fault.
pub proof fn ids_can_be_listed(defs: Seq<TagDefinitionView>)
    ensures
        lists(
            ids_in_order(definitions_by_id(defs).dom()),
            definitions_by_id(defs).dom(),
        ),
        definitions_fault(defs) is None ==> ids_in_order(definitions_by_id(defs).dom()).len()
            == defs.len(),
    decreases defs.len(),
{
    let dom = definitions_by_id(defs).dom();
    if defs.len() == 0 {
        let none = Seq::<Seq<char>>::empty();
        assert(lists(none, dom));
        listing_is_unique(none, ids_in_order(dom), dom);
    } else {
        let rest = defs.drop_last();
        let id = defs.last().id;
        let before = definitions_by_id(rest).dom();
        ids_can_be_listed(rest);
        let all = listing_with(ids_in_order(before), before, id);
        assert(dom =~= before.insert(id));
        listing_is_unique(all, ids_in_order(dom), dom);
        definitions_by_id_has_each_id(rest);
        assert(before.contains(id) <==> definitions_by_id(rest).contains_key(id));
    }
}

/// The definitions in the order of their ids are strictly ascending by id and a permutation of the
/// definitions that the store was made of.
pub proof fn sorted_definitions_are_a_permutation(defs: Seq<TagDefinitionView>)
    requires
        definitions_fault(defs) is None,
    ensures
        ({
            let sorted = sorted_definitions(definitions_by_id(defs));
            &&& forall|i: int, j: int|
                0 <= i < j < sorted.len() ==> precedes(
                    (#[trigger] sorted[i]).id,
                    (#[trigger] sorted[j]).id,
                )
            &&& sorted.to_multiset() == defs.to_multiset()
        }),
{
    broadcast use vstd::seq_lib::group_to_multiset_ensures;

    let m = definitions_by_id(defs);
    let ids = ids_in_order(m.dom());
    let sorted = sorted_definitions(m);
    ids_can_be_listed(defs);
    definitions_by_id_has_each_id(defs);
    faultless_definitions_are_valid_and_distinct(defs);
    distinct_ids_are_no_duplicates(defs);
    assert forall|i: int| 0 <= i < sorted.len() implies (#[trigger] sorted[i]).id == ids[i] by {
        assert(ids.contains(ids[i]));
        assert(m.dom().contains(ids[i]));
        assert(m.contains_key(ids[i]));
        assert(m[ids[i]].id == ids[i]);
    }
    assert forall|i: int, j: int| 0 <= i < j < sorted.len() implies precedes(
        (#[trigger] sorted[i]).id,
        (#[trigger] sorted[j]).id,
    ) by {
        assert(ascending(ids));
        assert(precedes(ids[i], ids[j]));
    }
    assert forall|i: int, j: int|
        0 <= i < sorted.len() && 0 <= j < sorted.len() && i != j implies sorted[i] != sorted[j] by {
        if sorted[i] == sorted[j] {
            precedes_is_irreflexive(sorted[i].id);
            if i < j {
                assert(precedes(sorted[i].id, sorted[j].id));
            } else {
                assert(precedes(sorted[j].id, sorted[i].id));
            }
        }
    }
    assert(sorted.no_duplicates());
    assert forall|d: TagDefinitionView| #[trigger] sorted.contains(d) <==> defs.contains(d) by {
        if sorted.contains(d) {
            let i = choose|i: int| 0 <= i < sorted.len() && sorted[i] == d;
            assert(ids.contains(ids[i]));
            assert(m.dom().contains(ids[i]));
            assert(m.contains_key(ids[i]));
            let k = choose|k: int| 0 <= k < defs.len() && (#[trigger] defs[k]).id == ids[i];
            faultless_definitions_stand_under_their_ids(defs, k);
            assert(defs[k] == d);
        }
        if defs.contains(d) {
            let k = choose|k: int| 0 <= k < defs.len() && defs[k] == d;
            faultless_definitions_stand_under_their_ids(defs, k);
            assert(m.dom().contains(d.id));
            assert(ids.contains(d.id));
            let i = choose|i: int| 0 <= i < ids.len() && ids[i] == d.id;
            assert(sorted[i] == d);
        }
    }
    sorted.lemma_multiset_has_no_duplicates();
    defs.lemma_multiset_has_no_duplicates();
    assert forall|d: TagDefinitionView| #[trigger]
        sorted.to_multiset().count(d) == defs.to_multiset().count(d) by {
        assert(sorted.contains(d) <==> sorted.to_multiset().count(d) > 0);
        assert(defs.contains(d) <==> defs.to_multiset().count(d) > 0);
        assert(sorted.to_multiset().contains(d) <==> sorted.to_multiset().count(d) > 0);
        assert(defs.to_multiset().contains(d) <==> defs.to_multiset().count(d) > 0);
    }
    assert(sorted.to_multiset() =~= defs.to_multiset());
}

/// Read-only store of [`TagDefinition`]s.
pub struct TagDefinitionStore {
    map: SortedMap<TagDefinition>,
}

impl View for TagDefinitionStore {
    type V = Map<Seq<char>, TagDefinitionView>;

    closed spec fn view(&self) -> Map<Seq<char>, TagDefinitionView> {
        self.map@.map_values(|d: TagDefinition| d@)
    }
}

impl TagDefinitionStore {
    /// Build a store from definitions.
    pub fn from_definitions(defs: &[TagDefinition]) -> (r: Result<TagDefinitionStore, CoreError>)
        ensures
            match r {
                Ok(store) => {
                    &&& definitions_fault(definition_views(defs@)) is None
                    &&& store@ == definitions_by_id(definition_views(defs@))
                },
                Err(e) => definitions_fault(definition_views(defs@)) == Some(e@),
            },
    {
        let ghost views = definition_views(defs@);
        let mut map: SortedMap<TagDefinition> = SortedMap::new();
        let mut i: usize = 0;
        assert(map@.map_values(|d: TagDefinition| d@) =~= definitions_by_id(views.take(0)));
        while i < defs.len()
            invariant
                i <= defs.len(),
                views == definition_views(defs@),
                definitions_fault(views.take(i as int)) is None,
                map@.map_values(|d: TagDefinition| d@) == definitions_by_id(views.take(i as int)),
            decreases defs.len() - i,
        {
            let d = &defs[i];
            let ghost done = views.take(i as int);
            proof {
                assert(views.take(i + 1).drop_last() =~= done);
                assert(views.take(i + 1).last() == d@);
                definitions_by_id_has_each_id(done);
                assert(map@.contains_key(d@.id) == definitions_by_id(done).contains_key(d@.id));
            }
            match d.validate() {
                Ok(_) => {},
                Err(e) => {
                    proof {
                        fault_stays(views, i + 1);
                    }
                    return Err(e);
                },
            }
            if map.contains_key(d.id.as_str()) {
                let e = CoreError::InvalidConfig(
                    text::join2("Duplicate TagDefinition id: ", d.id.as_str()),
                );
                proof {
                    fault_stays(views, i + 1);
                }
                return Err(e);
            }
            let ghost before = map@;
            map.insert(d.id.clone(), d.clone());
            assert(map@.map_values(|d: TagDefinition| d@) =~= before.map_values(
                |d: TagDefinition| d@,
            ).insert(d@.id, d@));
            i = i + 1;
        }
        assert(views.take(i as int) =~= views);
        Ok(TagDefinitionStore { map })
    }

    /// The ids, in order.
    pub closed spec fn ids(self) -> Seq<Seq<char>> {
        self.map.keys()
    }

    /// Number of definitions.
    pub fn len(&self) -> (r: usize)
        ensures
            r == self.ids().len(),
            lists(self.ids(), self@.dom()),
    {
        assert(self@.dom() =~= self.map@.dom());
        self.map.len()
    }

    /// Whether there are no definitions.
    pub fn is_empty(&self) -> (r: bool)
        ensures
            r == (self@ == Map::<Seq<char>, TagDefinitionView>::empty()),
    {
        let n = self.len();
        proof {
            if n == 0 {
                assert forall|k: Seq<char>| !(#[trigger] self@.contains_key(k)) by {
                    assert(self@.dom().contains(k) <==> self.ids().contains(k));
                }
                assert(self@ =~= Map::<Seq<char>, TagDefinitionView>::empty());
            } else {
                assert(self.ids().contains(self.ids()[0]));
                assert(self@.dom().contains(self.ids()[0]));
            }
        }
        n == 0
    }

    /// The definition with the id `id`.
    pub fn get(&self, id: &str) -> (r: Result<&TagDefinition, CoreError>)
        ensures
            match r {
                Ok(d) => self@.contains_key(id@) && d@ == self@[id@],
                Err(e) => !self@.contains_key(id@) && e@ == CoreErrorView::DefinitionNotFound(id@),
            },
    {
        match self.map.get(id) {
            Some(d) => Ok(d),
            None => Err(CoreError::DefinitionNotFound(id.to_owned())),
        }
    }

    /// Whether a definition with the id `id` exists.
    pub fn contains(&self, id: &str) -> (r: bool)
        ensures
            r == self@.contains_key(id@),
    {
        self.map.contains_key(id)
    }

    /// The definition at position `i` in the order of ids.
    pub fn at(&self, i: usize) -> (r: &TagDefinition)
        requires
            i < self.ids().len(),
        ensures
            self@.contains_key(self.ids()[i as int]),
            r@ == self@[self.ids()[i as int]],
    {
        self.map.value_at(i)
    }

    /// All definitions, in the order of their ids.
    pub fn all_definitions_sorted(&self) -> (r: Vec<TagDefinition>)
        ensures
            lists(ids_in_order(self@.dom()), self@.dom()),
            definition_views(r@) == sorted_definitions(self@),
    {
        let n = self.len();
        let mut v: Vec<TagDefinition> = Vec::new();
        let mut i: usize = 0;
        while i < n
            invariant
                i <= n,
                n == self.ids().len(),
                v@.len() == i,
                forall|k: int| 0 <= k < i ==> (#[trigger] v@[k])@ == self@[self.ids()[k]],
            decreases n - i,
        {
            v.push(self.at(i).clone());
            i = i + 1;
        }
        proof {
            listing_is_unique(self.ids(), ids_in_order(self@.dom()), self@.dom());
            assert(definition_views(v@) =~= sorted_definitions(self@));
        }
        v
    }
}

proof fn fault_stays(views: Seq<TagDefinitionView>, k: int)
    requires
        0 <= k <= views.len(),
        definitions_fault(views.take(k)) is Some,
    ensures
        definitions_fault(views) == definitions_fault(views.take(k)),
    decreases views.len() - k,
{
    if k < views.len() {
        assert(views.take(k + 1).drop_last() =~= views.take(k));
        fault_stays(views, k + 1);
    } else {
        assert(views.take(k) =~= views);
    }
}

} // verus!
