//! A map from texts to values that lists its keys in the order of texts.

use crate::text;
use crate::text::precedes;
use vstd::prelude::*;

verus! {

/// Each text of `ks` precedes all that follow it.
pub open spec fn ascending(ks: Seq<Seq<char>>) -> bool {
    forall|i: int, j: int| 0 <= i < j < ks.len() ==> precedes(#[trigger] ks[i], #[trigger] ks[j])
}

/// `ks` lists the texts of `dom` in ascending order, each once.
pub open spec fn lists(ks: Seq<Seq<char>>, dom: Set<Seq<char>>) -> bool {
    &&& ascending(ks)
    &&& forall|k: Seq<char>| #[trigger] dom.contains(k) <==> ks.contains(k)
}

/// There is one way only to list the texts of a set.
pub proof fn listing_is_unique(a: Seq<Seq<char>>, b: Seq<Seq<char>>, dom: Set<Seq<char>>)
    requires
        lists(a, dom),
        lists(b, dom),
    ensures
        a == b,
    decreases a.len(),
{
    if a.len() == 0 {
        if b.len() > 0 {
            assert(b.contains(b[0]));
            assert(dom.contains(b[0]));
            assert(a.contains(b[0]));
        }
        assert(a =~= b);
    } else {
        let x = a.last();
        assert(a.contains(x));
        assert(dom.contains(x));
        assert(b.contains(x));
        let y = b.last();
        assert(b.contains(y));
        assert(dom.contains(y));
        assert(a.contains(y));
        let i = choose|i: int| 0 <= i < b.len() && b[i] == x;
        let j = choose|j: int| 0 <= j < a.len() && a[j] == y;
        if x != y {
            assert(precedes(b[i], b[b.len() - 1]));
            assert(precedes(a[j], a[a.len() - 1]));
            text::precedes_is_asymmetric(x, y);
        }
        let a1 = a.drop_last();
        let b1 = b.drop_last();
        let d1 = dom.remove(x);
        listing_without_last(a, dom);
        listing_without_last(b, dom);
        listing_is_unique(a1, b1, d1);
        assert(a =~= a1.push(x));
        assert(b =~= b1.push(x));
    }
}

proof fn listing_without_last(a: Seq<Seq<char>>, dom: Set<Seq<char>>)
    requires
        lists(a, dom),
        a.len() > 0,
    ensures
        lists(a.drop_last(), dom.remove(a.last())),
{
    let x = a.last();
    let a1 = a.drop_last();
    let d1 = dom.remove(x);
    assert forall|k: Seq<char>| #[trigger] d1.contains(k) <==> a1.contains(k) by {
        if d1.contains(k) {
            assert(dom.contains(k));
            let i = choose|i: int| 0 <= i < a.len() && a[i] == k;
            assert(i < a.len() - 1);
            assert(a1[i] == k);
        }
        if a1.contains(k) {
            let i = choose|i: int| 0 <= i < a1.len() && a1[i] == k;
            assert(a[i] == k);
            assert(a.contains(k));
            assert(dom.contains(k));
            assert(precedes(a[i], a[a.len() - 1]));
            text::precedes_is_irreflexive(x);
        }
    }
    assert forall|i: int, j: int| 0 <= i < j < a1.len() implies precedes(
        #[trigger] a1[i],
        #[trigger] a1[j],
    ) by {
        assert(precedes(a[i], a[j]));
    }
}

/// A listing with one text more, or the same where it lists that text already.
pub proof fn listing_with(ks: Seq<Seq<char>>, dom: Set<Seq<char>>, x: Seq<char>) -> (r: Seq<
    Seq<char>,
>)
    requires
        lists(ks, dom),
    ensures
        lists(r, dom.insert(x)),
        r.len() == ks.len() + (if dom.contains(x) {
            0int
        } else {
            1int
        }),
    decreases ks.len(),
{
    let all = dom.insert(x);
    if dom.contains(x) {
        assert(all =~= dom);
        ks
    } else if ks.len() == 0 {
        let r = seq![x];
        assert forall|k: Seq<char>| #[trigger] all.contains(k) <==> r.contains(k) by {
            if dom.contains(k) {
                assert(ks.contains(k));
            }
            if k == x {
                assert(r[0] == k);
            }
        }
        r
    } else {
        let last = ks.last();
        assert(ks.contains(last));
        assert(dom.contains(last));
        text::precedes_is_total(last, x);
        if precedes(last, x) {
            let r = ks.push(x);
            assert forall|i: int, j: int| 0 <= i < j < r.len() implies precedes(
                #[trigger] r[i],
                #[trigger] r[j],
            ) by {
                if j < ks.len() {
                    assert(precedes(ks[i], ks[j]));
                } else if i < ks.len() - 1 {
                    assert(precedes(ks[i], ks[ks.len() - 1]));
                    text::precedes_is_transitive(ks[i], last, x);
                }
            }
            assert forall|k: Seq<char>| #[trigger] all.contains(k) <==> r.contains(k) by {
                if dom.contains(k) {
                    let i = choose|i: int| 0 <= i < ks.len() && ks[i] == k;
                    assert(r[i] == k);
                }
                if k == x {
                    assert(r[ks.len() as int] == k);
                }
                if r.contains(k) {
                    let i = choose|i: int| 0 <= i < r.len() && r[i] == k;
                    if i < ks.len() {
                        assert(ks[i] == k);
                        assert(ks.contains(k));
                    }
                }
            }
            r
        } else {
            let front = ks.drop_last();
            let rest = dom.remove(last);
            listing_without_last(ks, dom);
            let r0 = listing_with(front, rest, x);
            let r = r0.push(last);
            assert forall|i: int, j: int| 0 <= i < j < r.len() implies precedes(
                #[trigger] r[i],
                #[trigger] r[j],
            ) by {
                if j < r0.len() {
                    assert(precedes(r0[i], r0[j]));
                } else {
                    let k = r0[i];
                    assert(r0.contains(k));
                    assert(rest.insert(x).contains(k));
                    if k != x {
                        assert(front.contains(k));
                        let f = choose|f: int| 0 <= f < front.len() && front[f] == k;
                        assert(precedes(ks[f], ks[ks.len() - 1]));
                    }
                }
            }
            assert forall|k: Seq<char>| #[trigger] all.contains(k) <==> r.contains(k) by {
                if all.contains(k) {
                    if k == last {
                        assert(r[r0.len() as int] == k);
                    } else {
                        assert(rest.insert(x).contains(k));
                        let i = choose|i: int| 0 <= i < r0.len() && r0[i] == k;
                        assert(r[i] == k);
                    }
                }
                if r.contains(k) {
                    let i = choose|i: int| 0 <= i < r.len() && r[i] == k;
                    if i < r0.len() {
                        assert(r0[i] == k);
                        assert(r0.contains(k));
                        assert(rest.insert(x).contains(k));
                    }
                }
            }
            r
        }
    }
}

struct Entries<V> {
    keys: Vec<String>,
    values: Vec<V>,
}

/// The texts that a vector holds.
pub open spec fn texts(v: Seq<String>) -> Seq<Seq<char>> {
    Seq::new(v.len(), |i: int| v[i]@)
}

spec fn map_of<V>(keys: Seq<Seq<char>>, values: Seq<V>) -> Map<Seq<char>, V> {
    Map::new(|k: Seq<char>| keys.contains(k), |k: Seq<char>| values[keys.index_of(k)])
}

impl<V> Entries<V> {
    spec fn wf(self) -> bool {
        &&& self.keys@.len() == self.values@.len()
        &&& ascending(texts(self.keys@))
    }

    spec fn map(self) -> Map<Seq<char>, V> {
        map_of(texts(self.keys@), self.values@)
    }

    fn search(&self, key: &str) -> (r: (bool, usize))
        requires
            self.wf(),
        ensures
            r.1 <= self.keys@.len(),
            forall|i: int| 0 <= i < r.1 ==> precedes(#[trigger] self.keys@[i]@, key@),
            r.0 ==> r.1 < self.keys@.len() && self.keys@[r.1 as int]@ == key@,
            !r.0 ==> forall|i: int|
                r.1 <= i < self.keys@.len() ==> precedes(key@, #[trigger] self.keys@[i]@),
    {
        let mut lo: usize = 0;
        let mut hi: usize = self.keys.len();
        let ghost ks = texts(self.keys@);
        while lo < hi
            invariant
                lo <= hi <= self.keys@.len(),
                ks == texts(self.keys@),
                ascending(ks),
                forall|i: int| 0 <= i < lo ==> precedes(#[trigger] self.keys@[i]@, key@),
                forall|i: int|
                    hi <= i < self.keys@.len() ==> precedes(key@, #[trigger] self.keys@[i]@),
            decreases hi - lo,
        {
            let mid: usize = lo + (hi - lo) / 2;
            let here = self.keys[mid].as_str();
            if text::comes_before(here, key) {
                assert forall|i: int| 0 <= i < mid + 1 implies precedes(
                    #[trigger] self.keys@[i]@,
                    key@,
                ) by {
                    if i < mid {
                        assert(precedes(ks[i], ks[mid as int]));
                        text::precedes_is_transitive(ks[i], ks[mid as int], key@);
                    }
                }
                lo = mid + 1;
            } else if text::comes_before(key, here) {
                assert forall|i: int| mid <= i < self.keys@.len() implies precedes(
                    key@,
                    #[trigger] self.keys@[i]@,
                ) by {
                    if i > mid {
                        assert(precedes(ks[mid as int], ks[i]));
                        text::precedes_is_transitive(key@, ks[mid as int], ks[i]);
                    }
                }
                hi = mid;
            } else {
                proof {
                    text::precedes_is_total(ks[mid as int], key@);
                    assert forall|i: int| 0 <= i < mid implies precedes(
                        #[trigger] self.keys@[i]@,
                        key@,
                    ) by {
                        assert(precedes(ks[i], ks[mid as int]));
                    }
                }
                return (true, mid);
            }
        }
        (false, lo)
    }

    proof fn absent(self, key: Seq<char>, at: int)
        requires
            self.wf(),
            0 <= at <= self.keys@.len(),
            forall|i: int| 0 <= i < at ==> precedes(#[trigger] self.keys@[i]@, key),
            forall|i: int| at <= i < self.keys@.len() ==> precedes(key, #[trigger] self.keys@[i]@),
        ensures
            !texts(self.keys@).contains(key),
    {
        let ks = texts(self.keys@);
        if ks.contains(key) {
            let i = choose|i: int| 0 <= i < ks.len() && ks[i] == key;
            assert(ks[i] == self.keys@[i]@);
            text::precedes_is_irreflexive(key);
        }
    }

    proof fn index_is_position(self, i: int)
        requires
            self.wf(),
            0 <= i < self.keys@.len(),
        ensures
            texts(self.keys@).index_of(self.keys@[i]@) == i,
            texts(self.keys@).contains(self.keys@[i]@),
    {
        let ks = texts(self.keys@);
        assert(ks[i] == self.keys@[i]@);
        let j = ks.index_of(ks[i]);
        assert(0 <= j < ks.len() && ks[j] == ks[i]);
        if i < j {
            assert(precedes(ks[i], ks[j]));
            text::precedes_is_irreflexive(ks[i]);
        } else if j < i {
            assert(precedes(ks[j], ks[i]));
            text::precedes_is_irreflexive(ks[i]);
        }
    }

    fn insert(&mut self, key: String, value: V)
        requires
            old(self).wf(),
        ensures
            final(self).wf(),
            final(self).map() == old(self).map().insert(key@, value),
    {
        let ghost before = *self;
        let ghost ks = texts(self.keys@);
        let ghost k = key@;
        let (found, at) = self.search(key.as_str());
        if found {
            self.values.set(at, value);
            proof {
                before.index_is_position(at as int);
                assert forall|q: Seq<char>| ks.contains(q) && q != k implies ks.index_of(q)
                    != at by {
                    assert(ks[ks.index_of(q)] == q);
                }
                assert(self.map() =~= before.map().insert(k, value));
            }
        } else {
            proof {
                before.absent(k, at as int);
            }
            self.keys.insert(at, key);
            self.values.insert(at, value);
            proof {
                let ks2 = texts(self.keys@);
                assert(ks2 =~= ks.insert(at as int, k));
                assert forall|i: int, j: int| 0 <= i < j < ks2.len() implies precedes(
                    #[trigger] ks2[i],
                    #[trigger] ks2[j],
                ) by {
                    let i0 = if i < at { i } else { i - 1 };
                    let j0 = if j < at { j } else { j - 1 };
                    if i != at {
                        assert(ks2[i] == before.keys@[i0]@);
                    }
                    if j != at {
                        assert(ks2[j] == before.keys@[j0]@);
                    }
                    if i != at && j != at {
                        assert(precedes(ks[i0], ks[j0]));
                    }
                }
                assert forall|q: Seq<char>| #[trigger] ks2.contains(q) <==> (ks.contains(q) || q
                    == k) by {
                    if ks.contains(q) {
                        let i = choose|i: int| 0 <= i < ks.len() && ks[i] == q;
                        let i2 = if i < at { i } else { i + 1 };
                        assert(ks2[i2] == q);
                    }
                    if q == k {
                        assert(ks2[at as int] == q);
                    }
                    if ks2.contains(q) {
                        let i = choose|i: int| 0 <= i < ks2.len() && ks2[i] == q;
                        if i < at {
                            assert(ks[i] == q);
                        } else if i > at {
                            assert(ks[i - 1] == q);
                        }
                    }
                }
                assert forall|q: Seq<char>| #[trigger] ks2.contains(q) implies self.map()[q]
                    == before.map().insert(k, value)[q] by {
                    let i = ks2.index_of(q);
                    assert(ks2[i] == q);
                    if q == k {
                        self.index_is_position(at as int);
                    } else {
                        let p = ks.index_of(q);
                        assert(ks[p] == q);
                        let p2 = if p < at { p } else { p + 1 };
                        assert(ks2[p2] == q);
                        self.index_is_position(p2);
                        assert(self.values@[p2] == before.values@[p]);
                    }
                }
                assert(self.map() =~= before.map().insert(k, value));
            }
        }
    }
}

/// A map from texts to values.
pub struct SortedMap<V> {
    entries: Entries<V>,
}

impl<V> View for SortedMap<V> {
    type V = Map<Seq<char>, V>;

    closed spec fn view(&self) -> Map<Seq<char>, V> {
        self.entries.map()
    }
}

impl<V> SortedMap<V> {
    #[verifier::type_invariant]
    spec fn wf(self) -> bool {
        self.entries.wf()
    }

    /// The keys, in order.
    pub closed spec fn keys(self) -> Seq<Seq<char>> {
        texts(self.entries.keys@)
    }

    /// An empty map.
    pub fn new() -> (r: SortedMap<V>)
        ensures
            r@ == Map::<Seq<char>, V>::empty(),
            r.keys().len() == 0,
    {
        let entries: Entries<V> = Entries { keys: Vec::new(), values: Vec::new() };
        assert(entries.map() =~= Map::<Seq<char>, V>::empty());
        SortedMap { entries }
    }

    proof fn keys_list_domain(entries: Entries<V>)
        requires
            entries.wf(),
        ensures
            lists(texts(entries.keys@), entries.map().dom()),
    {
    }

    /// Number of keys.
    pub fn len(&self) -> (r: usize)
        ensures
            r == self.keys().len(),
            lists(self.keys(), self@.dom()),
    {
        proof {
            use_type_invariant(self);
            SortedMap::keys_list_domain(self.entries);
        }
        self.entries.keys.len()
    }

    /// The key at position `i`.
    pub fn key_at(&self, i: usize) -> (r: &str)
        requires
            i < self.keys().len(),
        ensures
            r@ == self.keys()[i as int],
            self@.contains_key(r@),
    {
        proof {
            use_type_invariant(self);
            self.entries.index_is_position(i as int);
        }
        self.entries.keys[i].as_str()
    }

    /// The value at position `i`.
    pub fn value_at(&self, i: usize) -> (r: &V)
        requires
            i < self.keys().len(),
        ensures
            *r == self@[self.keys()[i as int]],
            self@.contains_key(self.keys()[i as int]),
    {
        proof {
            use_type_invariant(self);
            self.entries.index_is_position(i as int);
        }
        &self.entries.values[i]
    }

    /// The value under `key`.
    pub fn get(&self, key: &str) -> (r: Option<&V>)
        ensures
            match r {
                Some(v) => self@.contains_key(key@) && *v == self@[key@],
                None => !self@.contains_key(key@),
            },
    {
        proof {
            use_type_invariant(self);
        }
        let (found, at) = self.entries.search(key);
        if found {
            proof {
                self.entries.index_is_position(at as int);
            }
            Some(&self.entries.values[at])
        } else {
            proof {
                self.entries.absent(key@, at as int);
            }
            None
        }
    }

    /// Whether there is a value under `key`.
    pub fn contains_key(&self, key: &str) -> (r: bool)
        ensures
            r == self@.contains_key(key@),
    {
        self.get(key).is_some()
    }

    /// Put `value` under `key`, in place of what stood there.
    pub fn insert(&mut self, key: String, value: V)
        ensures
            final(self)@ == old(self)@.insert(key@, value),
    {
        proof {
            use_type_invariant(&*self);
        }
        let mut entries: Entries<V> = Entries { keys: Vec::new(), values: Vec::new() };
        std::mem::swap(&mut entries, &mut self.entries);
        entries.insert(key, value);
        self.entries = entries;
    }

    /// The keys of a map list its domain.
    pub fn keys_in_order(&self) -> (r: Vec<String>)
        ensures
            texts(r@) == self.keys(),
            lists(texts(r@), self@.dom()),
    {
        let n = self.len();
        let mut v: Vec<String> = Vec::new();
        let mut i: usize = 0;
        while i < n
            invariant
                i <= n,
                n == self.keys().len(),
                v@.len() == i,
                forall|k: int| 0 <= k < i ==> (#[trigger] v@[k])@ == self.keys()[k],
            decreases n - i,
        {
            v.push(self.key_at(i).to_owned());
            i = i + 1;
        }
        assert(texts(v@) =~= self.keys());
        v
    }
}

} // verus!
