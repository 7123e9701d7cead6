//! Read planning: mapped address ranges are put in order, merged where they touch, and split
//! into requests that a protocol allows.

use vstd::prelude::*;

verus! {

/// A range of `len` addresses from `start`, in an address space of its own for each `class`.
#[derive(Clone, Copy, Debug, PartialEq, Eq, Structural)]
pub struct Span {
    pub class: u8,
    pub start: u32,
    pub len: u32,
}

/// First address after a span.
pub open spec fn span_end(s: Span) -> int {
    s.start + s.len
}

/// Indices as mathematical integers.
pub open spec fn indices(v: Seq<usize>) -> Seq<int> {
    Seq::new(v.len(), |i: int| v[i] as int)
}

// ---------------------------------------------------------------------------
// Order
// ---------------------------------------------------------------------------

/// Span `i` has the lower address, or the same address and the lower index.
pub open spec fn comes_first(spans: Seq<Span>, i: int, j: int) -> bool {
    spans[i].start < spans[j].start || (spans[i].start == spans[j].start && i < j)
}

/// `order` holds the indices of the spans of a class, each once, by address and then by index.
pub open spec fn in_address_order(spans: Seq<Span>, class: u8, order: Seq<int>) -> bool {
    &&& forall|a: int, b: int|
        0 <= a < b < order.len() ==> comes_first(spans, #[trigger] order[a], #[trigger] order[b])
    &&& forall|i: int| #[trigger]
        order.contains(i) <==> (0 <= i < spans.len() && spans[i].class == class)
}

/// The indices of the spans of a class, by address and then by index.
pub open spec fn address_order(spans: Seq<Span>, class: u8) -> Seq<int> {
    choose|order: Seq<int>| in_address_order(spans, class, order)
}

/// There is one address order only.
pub proof fn address_order_is_unique(spans: Seq<Span>, class: u8, order: Seq<int>)
    requires
        in_address_order(spans, class, order),
    ensures
        address_order(spans, class) == order,
{
    same_order(spans, address_order(spans, class), order);
}

proof fn same_order(spans: Seq<Span>, a: Seq<int>, b: Seq<int>)
    requires
        forall|x: int, y: int|
            0 <= x < y < a.len() ==> comes_first(spans, #[trigger] a[x], #[trigger] a[y]),
        forall|x: int, y: int|
            0 <= x < y < b.len() ==> comes_first(spans, #[trigger] b[x], #[trigger] b[y]),
        forall|i: int| #[trigger] a.contains(i) <==> b.contains(i),
    ensures
        a == b,
    decreases a.len(),
{
    if a.len() == 0 {
        if b.len() > 0 {
            assert(b.contains(b[0]));
            assert(a.contains(b[0]));
        }
        assert(a =~= b);
    } else {
        assert(a.contains(a.last()));
        assert(b.contains(a.last()));
        assert(b.contains(b.last()));
        assert(a.contains(b.last()));
        let x = choose|x: int| 0 <= x < a.len() && a[x] == b.last();
        let y = choose|y: int| 0 <= y < b.len() && b[y] == a.last();
        if a.last() != b.last() {
            assert(comes_first(spans, a[x], a[a.len() - 1]));
            assert(comes_first(spans, b[y], b[b.len() - 1]));
        }
        let a1 = a.drop_last();
        let b1 = b.drop_last();
        assert forall|i: int| #[trigger] a1.contains(i) <==> b1.contains(i) by {
            if a1.contains(i) {
                let p = choose|p: int| 0 <= p < a1.len() && a1[p] == i;
                assert(a[p] == i);
                assert(comes_first(spans, a[p], a[a.len() - 1]));
                assert(a.contains(i));
                let q = choose|q: int| 0 <= q < b.len() && b[q] == i;
                assert(b1[q] == i);
            }
            if b1.contains(i) {
                let p = choose|p: int| 0 <= p < b1.len() && b1[p] == i;
                assert(b[p] == i);
                assert(comes_first(spans, b[p], b[b.len() - 1]));
                assert(b.contains(i));
                assert(a.contains(i));
                let q = choose|q: int| 0 <= q < a.len() && a[q] == i;
                assert(a1[q] == i);
            }
        }
        assert forall|p: int, q: int| 0 <= p < q < a1.len() implies comes_first(
            spans,
            #[trigger] a1[p],
            #[trigger] a1[q],
        ) by {
            assert(comes_first(spans, a[p], a[q]));
        }
        assert forall|p: int, q: int| 0 <= p < q < b1.len() implies comes_first(
            spans,
            #[trigger] b1[p],
            #[trigger] b1[q],
        ) by {
            assert(comes_first(spans, b[p], b[q]));
        }
        same_order(spans, a1, b1);
        assert(a =~= a1.push(a.last()));
        assert(b =~= b1.push(b.last()));
    }
}

/// `order` holds the indices below `n` of the spans of a class, by address and then by index.
spec fn orders_prefix(spans: Seq<Span>, class: u8, order: Seq<int>, n: int) -> bool {
    &&& forall|a: int, b: int|
        0 <= a < b < order.len() ==> comes_first(spans, #[trigger] order[a], #[trigger] order[b])
    &&& forall|i: int| #[trigger] order.contains(i) <==> (0 <= i < n && spans[i].class == class)
}

proof fn insertion_keeps_order(spans: Seq<Span>, class: u8, before: Seq<int>, p: int, i: int)
    requires
        orders_prefix(spans, class, before, i),
        0 <= i,
        spans[i].class == class,
        0 <= p <= before.len(),
        p > 0 ==> spans[before[p - 1]].start <= spans[i].start,
        forall|a: int|
            p <= a < before.len() ==> spans[#[trigger] before[a]].start > spans[i].start,
    ensures
        orders_prefix(spans, class, before.insert(p, i), i + 1),
{
    let after = before.insert(p, i);
    assert forall|a: int, b: int| 0 <= a < b < after.len() implies comes_first(
        spans,
        #[trigger] after[a],
        #[trigger] after[b],
    ) by {
        let a0 = if a < p {
            a
        } else {
            a - 1
        };
        let b0 = if b < p {
            b
        } else {
            b - 1
        };
        if a != p && b != p {
            assert(comes_first(spans, before[a0], before[b0]));
        } else if b == p {
            assert(after[a] == before[a0]);
            assert(before.contains(before[a0]));
            if a0 < p - 1 {
                assert(comes_first(spans, before[a0], before[p - 1]));
            }
        } else {
            assert(after[b] == before[b0]);
        }
    }
    assert forall|k: int| #[trigger] after.contains(k) <==> (0 <= k < i + 1 && spans[k].class
        == class) by {
        if before.contains(k) {
            let a = choose|a: int| 0 <= a < before.len() && before[a] == k;
            let a1 = if a < p {
                a
            } else {
                a + 1
            };
            assert(after[a1] == k);
        }
        if k == i {
            assert(after[p] == k);
        }
        if after.contains(k) {
            let a = choose|a: int| 0 <= a < after.len() && after[a] == k;
            if a < p {
                assert(before[a] == k);
            } else if a > p {
                assert(before[a - 1] == k);
            }
        }
    }
}

proof fn insertion_point(spans: Seq<Span>, order: Seq<int>, i: int) -> (p: int)
    ensures
        0 <= p <= order.len(),
        p > 0 ==> spans[order[p - 1]].start <= spans[i].start,
        forall|a: int| p <= a < order.len() ==> spans[#[trigger] order[a]].start > spans[i].start,
    decreases order.len(),
{
    if order.len() == 0 || spans[order.last()].start <= spans[i].start {
        order.len() as int
    } else {
        let p = insertion_point(spans, order.drop_last(), i);
        assert forall|a: int| p <= a < order.len() implies spans[#[trigger] order[a]].start
            > spans[i].start by {
            if a < order.len() - 1 {
                assert(order.drop_last()[a] == order[a]);
            }
        }
        p
    }
}

proof fn prefix_has_order(spans: Seq<Span>, class: u8, n: int) -> (order: Seq<int>)
    requires
        0 <= n <= spans.len(),
    ensures
        orders_prefix(spans, class, order, n),
    decreases n,
{
    if n == 0 {
        Seq::empty()
    } else {
        let before = prefix_has_order(spans, class, n - 1);
        let i = n - 1;
        if spans[i].class == class {
            let p = insertion_point(spans, before, i);
            insertion_keeps_order(spans, class, before, p, i);
            before.insert(p, i)
        } else {
            before
        }
    }
}

/// The spans of a class can be put in address order.
pub proof fn address_order_exists(spans: Seq<Span>, class: u8)
    ensures
        in_address_order(spans, class, address_order(spans, class)),
{
    let order = prefix_has_order(spans, class, spans.len() as int);
    assert(in_address_order(spans, class, order));
}

/// The indices of the spans of a class, by address and then by index.
pub fn sort_by_address(spans: &Vec<Span>, class: u8) -> (r: Vec<usize>)
    ensures
        indices(r@) == address_order(spans@, class),
        in_address_order(spans@, class, indices(r@)),
{
    let mut order: Vec<usize> = Vec::new();
    let mut i: usize = 0;
    while i < spans.len()
        invariant
            i <= spans@.len(),
            orders_prefix(spans@, class, indices(order@), i as int),
        decreases spans@.len() - i,
    {
        if spans[i].class == class {
            let ghost before = order@;
            proof {
                assert forall|a: int| 0 <= a < before.len() implies #[trigger] before[a] < i by {
                    assert(indices(before)[a] == before[a]);
                    assert(indices(before).contains(indices(before)[a]));
                }
            }
            let mut p: usize = order.len();
            while 0 < p && spans[order[p - 1]].start > spans[i].start
                invariant
                    p <= order@.len(),
                    order@ == before,
                    i < spans@.len(),
                    forall|a: int| 0 <= a < order@.len() ==> #[trigger] order@[a] < i,
                    forall|a: int|
                        p <= a < order@.len() ==> spans@[#[trigger] order@[a] as int].start
                            > spans@[i as int].start,
                decreases p,
            {
                p = p - 1;
            }
            order.insert(p, i);
            proof {
                assert(indices(order@) =~= indices(before).insert(p as int, i as int));
                insertion_keeps_order(spans@, class, indices(before), p as int, i as int);
            }
        }
        i = i + 1;
    }
    proof {
        address_order_is_unique(spans@, class, indices(order@));
    }
    order
}

// ---------------------------------------------------------------------------
// Overlaps
// ---------------------------------------------------------------------------

/// Last address of a span in an address space that ends with `top`. An empty span ends before
/// its start, but not below zero.
pub open spec fn last_address(s: Span, top: int) -> int {
    if span_end(s) == 0 {
        0
    } else if span_end(s) - 1 <= top {
        span_end(s) - 1
    } else {
        top
    }
}

/// The span at position `w` of the order reaches into the next one.
pub open spec fn overlap_at(spans: Seq<Span>, top: int, order: Seq<int>, w: int) -> bool {
    &&& 0 <= w
    &&& w + 1 < order.len()
    &&& spans[order[w + 1]].start <= last_address(spans[order[w]], top)
}

/// Position `w` is the first at which a span reaches into the next one.
pub open spec fn first_overlap_at(spans: Seq<Span>, top: int, order: Seq<int>, w: int) -> bool {
    overlap_at(spans, top, order, w) && forall|v: int|
        0 <= v < w ==> !overlap_at(spans, top, order, v)
}

/// The first two spans of a class, in address order, of which one reaches into the other.
pub open spec fn first_overlap(spans: Seq<Span>, class: u8, top: int) -> Option<(int, int)> {
    let order = address_order(spans, class);
    if exists|w: int| overlap_at(spans, top, order, w) {
        let w = choose|w: int| first_overlap_at(spans, top, order, w);
        Some((order[w], order[w + 1]))
    } else {
        None
    }
}

/// Last address of a span in an address space that ends with `top`.
pub fn span_last(s: &Span, top: u32) -> (r: u32)
    ensures
        r == last_address(*s, top as int),
{
    let end: u64 = s.start as u64 + s.len as u64;
    if end == 0 {
        0
    } else if end - 1 <= top as u64 {
        (end - 1) as u32
    } else {
        top
    }
}

/// The first two spans of a class, in address order, of which one reaches into the other.
pub fn find_overlap(spans: &Vec<Span>, class: u8, top: u32) -> (r: Option<(usize, usize)>)
    ensures
        match r {
            Some(p) => {
                &&& first_overlap(spans@, class, top as int) == Some((p.0 as int, p.1 as int))
                &&& p.0 < spans@.len()
                &&& p.1 < spans@.len()
            },
            None => first_overlap(spans@, class, top as int) is None,
        },
{
    let order = sort_by_address(spans, class);
    let ghost all = indices(order@);
    proof {
        assert forall|a: int| 0 <= a < order@.len() implies #[trigger] order@[a]
            < spans@.len() by {
            assert(all[a] == order@[a]);
            assert(all.contains(all[a]));
        }
    }
    let mut w: usize = 0;
    while w < order.len() && order.len() - w > 1
        invariant
            w <= order@.len(),
            all == indices(order@),
            all == address_order(spans@, class),
            forall|a: int| 0 <= a < order@.len() ==> #[trigger] order@[a] < spans@.len(),
            forall|v: int| 0 <= v < w ==> !overlap_at(spans@, top as int, all, v),
        decreases order@.len() - w,
    {
        let i: usize = order[w];
        let j: usize = order[w + 1];
        if spans[j].start <= span_last(&spans[i], top) {
            proof {
                assert(overlap_at(spans@, top as int, all, w as int));
                assert(first_overlap_at(spans@, top as int, all, w as int));
                let c = choose|c: int| first_overlap_at(spans@, top as int, all, c);
                assert(c == w) by {
                    if c < w {
                        assert(!overlap_at(spans@, top as int, all, c));
                    } else if w < c {
                        assert(!overlap_at(spans@, top as int, all, w as int));
                    }
                }
            }
            return Some((i, j));
        }
        w = w + 1;
    }
    assert forall|v: int| !overlap_at(spans@, top as int, all, v) by {}
    None
}

/// Where no span of a class reaches into the next one, and all start within the address space,
/// no two of them share an address.
pub proof fn spans_without_overlap_are_disjoint(
    spans: Seq<Span>,
    class: u8,
    top: int,
    i: int,
    j: int,
)
    requires
        first_overlap(spans, class, top) is None,
        0 <= i < spans.len(),
        0 <= j < spans.len(),
        i != j,
        spans[i].class == class,
        spans[j].class == class,
        0 < spans[i].len,
        0 < spans[j].len,
        forall|k: int| 0 <= k < spans.len() ==> (#[trigger] spans[k]).start <= top,
    ensures
        span_end(spans[i]) <= spans[j].start || span_end(spans[j]) <= spans[i].start,
{
    address_order_exists(spans, class);
    let order = address_order(spans, class);
    assert(order.contains(i));
    assert(order.contains(j));
    let a = choose|a: int| 0 <= a < order.len() && order[a] == i;
    let b = choose|b: int| 0 <= b < order.len() && order[b] == j;
    let (lo, hi) = if a < b {
        (a, b)
    } else {
        (b, a)
    };
    assert(!overlap_at(spans, top, order, lo));
    if lo + 1 < hi {
        assert(comes_first(spans, order[lo + 1], order[hi]));
    }
}

/// Two spans that overlap are a pair of the class that shares an address; where no two spans of the
/// class share one, none overlap.
pub proof fn overlapping_spans_share_an_address(spans: Seq<Span>, class: u8, top: int)
    requires
        forall|k: int| 0 <= k < spans.len() ==> 0 < (#[trigger] spans[k]).len,
    ensures
        first_overlap(spans, class, top) matches Some(p) ==> {
            &&& 0 <= p.0 < spans.len()
            &&& 0 <= p.1 < spans.len()
            &&& p.0 != p.1
            &&& spans[p.0].class == class
            &&& spans[p.1].class == class
            &&& spans[p.0].start <= spans[p.1].start < span_end(spans[p.0])
        },
{
    if first_overlap(spans, class, top) is Some {
        address_order_exists(spans, class);
        let order = address_order(spans, class);
        let any = choose|w: int| overlap_at(spans, top, order, w);
        let w = first_of_overlaps(spans, top, order, any);
        let v = choose|v: int| first_overlap_at(spans, top, order, v);
        assert(first_overlap_at(spans, top, order, w));
        assert(first_overlap_at(spans, top, order, v));
        assert(order.contains(order[v]));
        assert(order.contains(order[v + 1]));
        assert(comes_first(spans, order[v], order[v + 1]));
    }
}

proof fn first_of_overlaps(spans: Seq<Span>, top: int, order: Seq<int>, any: int) -> (w: int)
    requires
        overlap_at(spans, top, order, any),
    ensures
        first_overlap_at(spans, top, order, w),
    decreases any,
{
    if exists|v: int| 0 <= v < any && overlap_at(spans, top, order, v) {
        let v = choose|v: int| 0 <= v < any && overlap_at(spans, top, order, v);
        first_of_overlaps(spans, top, order, v)
    } else {
        any
    }
}

// ---------------------------------------------------------------------------
// Groups
// ---------------------------------------------------------------------------

/// First address after a group of spans. A span that joins a group extends it to `limit` at
/// most.
pub open spec fn reach(spans: Seq<Span>, limit: int, group: Seq<int>) -> int
    decreases group.len(),
{
    if group.len() == 0 {
        0
    } else if group.len() == 1 {
        span_end(spans[group[0]])
    } else {
        let before = reach(spans, limit, group.drop_last());
        let end = if span_end(spans[group.last()]) <= limit {
            span_end(spans[group.last()])
        } else {
            limit + 1
        };
        if before >= end {
            before
        } else {
            end
        }
    }
}

/// Span `i` touches or overlaps a group that ends within the address space.
pub open spec fn joins(spans: Seq<Span>, limit: int, group: Seq<int>, i: int) -> bool {
    reach(spans, limit, group) <= limit && spans[i].start <= reach(spans, limit, group)
}

/// Spans taken in order: each joins the last group where it can, and opens a group elsewhere.
pub open spec fn groups(spans: Seq<Span>, limit: int, order: Seq<int>) -> Seq<Seq<int>>
    decreases order.len(),
{
    if order.len() == 0 {
        Seq::empty()
    } else {
        let gs = groups(spans, limit, order.drop_last());
        let i = order.last();
        if gs.len() > 0 && joins(spans, limit, gs.last(), i) {
            gs.drop_last().push(gs.last().push(i))
        } else {
            gs.push(seq![i])
        }
    }
}

struct Group {
    members: Vec<usize>,
    end: u64,
}

spec fn group_views(gs: Seq<Group>) -> Seq<Seq<int>> {
    Seq::new(gs.len(), |i: int| indices(gs[i].members@))
}

spec fn groups_agree(spans: Seq<Span>, limit: int, gs: Seq<Group>) -> bool {
    forall|k: int|
        0 <= k < gs.len() ==> {
            &&& (#[trigger] gs[k]).members@.len() > 0
            &&& gs[k].end == reach(spans, limit, indices(gs[k].members@))
            &&& forall|a: int|
                0 <= a < gs[k].members@.len() ==> #[trigger] gs[k].members@[a] < spans.len()
        }
}

fn build_groups(spans: &Vec<Span>, limit: u32, order: &Vec<usize>) -> (r: Vec<Group>)
    requires
        forall|a: int| 0 <= a < order@.len() ==> #[trigger] order@[a] < spans@.len(),
    ensures
        group_views(r@) == groups(spans@, limit as int, indices(order@)),
        groups_agree(spans@, limit as int, r@),
{
    let mut gs: Vec<Group> = Vec::new();
    let ghost all = indices(order@);
    let mut k: usize = 0;
    assert(group_views(gs@) =~= groups(spans@, limit as int, all.take(0)));
    while k < order.len()
        invariant
            k <= order@.len(),
            all == indices(order@),
            forall|a: int| 0 <= a < order@.len() ==> #[trigger] order@[a] < spans@.len(),
            group_views(gs@) == groups(spans@, limit as int, all.take(k as int)),
            groups_agree(spans@, limit as int, gs@),
        decreases order@.len() - k,
    {
        let i: usize = order[k];
        let span = spans[i];
        let ghost before = gs@;
        let ghost views = group_views(gs@);
        assert(all.take(k + 1).drop_last() =~= all.take(k as int));
        assert(all.take(k + 1).last() == i);
        let mut join = false;
        if gs.len() > 0 {
            let last: usize = gs.len() - 1;
            assert(views.last() == indices(before[last as int].members@));
            join = gs[last].end <= limit as u64 && span.start as u64 <= gs[last].end;
        }
        if join {
            let last: usize = gs.len() - 1;
            let ghost old_members = indices(gs@[last as int].members@);
            let mut end: u64 = span.start as u64 + span.len as u64;
            if end > limit as u64 {
                end = limit as u64 + 1;
            }
            gs[last].members.push(i);
            if gs[last].end < end {
                gs[last].end = end;
            }
            proof {
                let new_members = indices(gs@[last as int].members@);
                assert(new_members =~= old_members.push(i as int));
                assert(new_members.drop_last() =~= old_members);
                assert(group_views(gs@) =~= views.drop_last().push(views.last().push(i as int)));
            }
        } else {
            let mut members: Vec<usize> = Vec::new();
            members.push(i);
            gs.push(Group { members, end: span.start as u64 + span.len as u64 });
            proof {
                assert(indices(gs@[gs@.len() - 1].members@) =~= seq![i as int]);
                assert(group_views(gs@) =~= views.push(seq![i as int]));
            }
        }
        k = k + 1;
    }
    assert(all.take(k as int) =~= all);
    gs
}

// ---------------------------------------------------------------------------
// Requests
// ---------------------------------------------------------------------------

/// One read request: `len` addresses from `start`, on behalf of the spans `members`.
#[derive(Debug)]
pub struct Chunk {
    pub class: u8,
    pub start: u32,
    pub len: u16,
    pub members: Vec<usize>,
}

/// What a [`Chunk`] says.
#[verifier::ext_equal]
pub ghost struct ChunkView {
    pub class: u8,
    pub start: int,
    pub len: int,
    pub members: Seq<int>,
}

impl View for Chunk {
    type V = ChunkView;

    open spec fn view(&self) -> ChunkView {
        ChunkView {
            class: self.class,
            start: self.start as int,
            len: self.len as int,
            members: indices(self.members@),
        }
    }
}

/// What the requests of a sequence say.
pub open spec fn chunk_views(cs: Seq<Chunk>) -> Seq<ChunkView> {
    Seq::new(cs.len(), |i: int| cs[i]@)
}

/// How many addresses a request asks for where `remaining` are left: `max` at most, as far as a
/// count of 16 bits can tell.
pub open spec fn chunk_len(remaining: int, max: int) -> int {
    (if remaining <= max {
        remaining
    } else {
        max
    }) % 0x1_0000
}

/// The requests for `remaining` addresses from `start`: `max` at a time, until all are read or
/// the next request would start beyond `limit`.
pub open spec fn chunks(
    class: u8,
    start: int,
    remaining: int,
    max: int,
    limit: int,
    members: Seq<int>,
) -> Seq<ChunkView>
    decreases remaining,
{
    let len = chunk_len(remaining, max);
    if remaining <= 0 || max <= 0 || len <= 0 {
        Seq::empty()
    } else {
        let first = seq![ChunkView { class, start, len, members }];
        if start + len > limit {
            first
        } else {
            first + chunks(class, start + len, remaining - len, max, limit, members)
        }
    }
}

/// The requests of a group.
pub open spec fn group_chunks(
    spans: Seq<Span>,
    class: u8,
    limit: int,
    max: int,
    group: Seq<int>,
) -> Seq<ChunkView> {
    let start = spans[group[0]].start as int;
    chunks(class, start, reach(spans, limit, group) - start, max, limit, group)
}

/// The requests of groups, one group after the other.
pub open spec fn groups_chunks(
    spans: Seq<Span>,
    class: u8,
    limit: int,
    max: int,
    gs: Seq<Seq<int>>,
) -> Seq<ChunkView>
    decreases gs.len(),
{
    if gs.len() == 0 {
        Seq::empty()
    } else {
        groups_chunks(spans, class, limit, max, gs.drop_last()) + group_chunks(
            spans,
            class,
            limit,
            max,
            gs.last(),
        )
    }
}

/// The requests that read all spans of a class.
pub open spec fn class_plan(spans: Seq<Span>, class: u8, limit: int, max: int) -> Seq<ChunkView> {
    groups_chunks(spans, class, limit, max, groups(spans, limit, address_order(spans, class)))
}

/// Whether a group of `total` addresses can be split: each request has to ask for at least one
/// address.
pub open spec fn splittable(total: int, max: int) -> bool
    decreases total,
{
    let len = chunk_len(total, max);
    total <= 0 || (max > 0 && len > 0 && splittable(total - len, max))
}

/// A maximum that 16 bits can count splits every group.
pub proof fn small_maximum_splits(total: int, max: int)
    requires
        1 <= max <= 0xFFFF,
    ensures
        splittable(total, max),
    decreases total,
{
    if total > 0 {
        small_maximum_splits(total - chunk_len(total, max), max);
    }
}

/// A maximum that 16 bits can count splits every group of a class.
pub proof fn small_maximum_splits_class(spans: Seq<Span>, class: u8, limit: int, max: int)
    requires
        1 <= max <= 0xFFFF,
    ensures
        class_splittable(spans, class, limit, max),
{
    let gs = groups(spans, limit, address_order(spans, class));
    assert forall|k: int| 0 <= k < gs.len() implies splittable(
        reach(spans, limit, #[trigger] gs[k]) - spans[gs[k][0]].start,
        max,
    ) by {
        small_maximum_splits(reach(spans, limit, gs[k]) - spans[gs[k][0]].start, max);
    }
}

/// Whether every group of a class can be split.
pub open spec fn class_splittable(spans: Seq<Span>, class: u8, limit: int, max: int) -> bool {
    let gs = groups(spans, limit, address_order(spans, class));
    forall|k: int|
        0 <= k < gs.len() ==> splittable(
            reach(spans, limit, #[trigger] gs[k]) - spans[gs[k][0]].start,
            max,
        )
}

fn copy_indices(v: &Vec<usize>) -> (r: Vec<usize>)
    ensures
        r@ == v@,
{
    let mut w: Vec<usize> = Vec::new();
    let mut i: usize = 0;
    while i < v.len()
        invariant
            i <= v@.len(),
            w@ =~= v@.take(i as int),
        decreases v@.len() - i,
    {
        w.push(v[i]);
        i = i + 1;
    }
    assert(v@.take(i as int) =~= v@);
    w
}

fn add_chunks(
    out: &mut Vec<Chunk>,
    class: u8,
    start: u32,
    total: u64,
    max: u32,
    limit: u32,
    members: &Vec<usize>,
)
    requires
        splittable(total as int, max as int),
    ensures
        chunk_views(final(out)@) == chunk_views(old(out)@) + chunks(
            class,
            start as int,
            total as int,
            max as int,
            limit as int,
            indices(members@),
        ),
{
    let ghost prior = chunk_views(out@);
    let ghost group = indices(members@);
    let ghost wanted = prior + chunks(
        class,
        start as int,
        total as int,
        max as int,
        limit as int,
        group,
    );
    let mut at: u32 = start;
    let mut remaining: u64 = total;
    while remaining > 0
        invariant_except_break
            splittable(remaining as int, max as int),
            group == indices(members@),
            chunk_views(out@) + chunks(
                class,
                at as int,
                remaining as int,
                max as int,
                limit as int,
                group,
            ) == wanted,
        ensures
            chunk_views(out@) == wanted,
        decreases remaining,
    {
        let ghost before = chunk_views(out@);
        let ghost rest = chunks(
            class,
            at as int,
            remaining as int,
            max as int,
            limit as int,
            group,
        );
        let len: u64 = (if remaining <= max as u64 {
            remaining
        } else {
            max as u64
        }) % 0x1_0000;
        out.push(Chunk { class, start: at, len: len as u16, members: copy_indices(members) });
        let ghost first = ChunkView { class, start: at as int, len: len as int, members: group };
        assert(chunk_views(out@) =~= before.push(first));
        let next: u64 = at as u64 + len;
        if next > limit as u64 {
            assert(rest =~= seq![first]);
            assert(before + rest =~= before.push(first));
            break;
        }
        proof {
            let tail = chunks(
                class,
                next as int,
                remaining - len,
                max as int,
                limit as int,
                group,
            );
            assert(rest == seq![first] + tail);
            assert(before + rest =~= before.push(first) + tail);
        }
        at = next as u32;
        remaining = remaining - len;
        assert(remaining == 0 ==> chunks(
            class,
            at as int,
            remaining as int,
            max as int,
            limit as int,
            group,
        ) =~= Seq::empty());
        assert(chunk_views(out@) + Seq::<ChunkView>::empty() =~= chunk_views(out@));
    }
}

/// Append the requests that read all spans of a class.
pub fn plan_class(spans: &Vec<Span>, class: u8, limit: u32, max: u32, out: &mut Vec<Chunk>)
    requires
        class_splittable(spans@, class, limit as int, max as int),
    ensures
        chunk_views(final(out)@) == chunk_views(old(out)@) + class_plan(
            spans@,
            class,
            limit as int,
            max as int,
        ),
{
    let ghost prior = chunk_views(out@);
    let order = sort_by_address(spans, class);
    proof {
        let w = indices(order@);
        assert forall|a: int| 0 <= a < order@.len() implies #[trigger] order@[a]
            < spans@.len() by {
            assert(w[a] == order@[a]);
            assert(w.contains(w[a]));
        }
    }
    let gs = build_groups(spans, limit, &order);
    let ghost views = group_views(gs@);
    let mut k: usize = 0;
    assert(prior =~= prior + groups_chunks(
        spans@,
        class,
        limit as int,
        max as int,
        views.take(0),
    ));
    while k < gs.len()
        invariant
            k <= gs@.len(),
            views == group_views(gs@),
            views == groups(spans@, limit as int, address_order(spans@, class)),
            groups_agree(spans@, limit as int, gs@),
            class_splittable(spans@, class, limit as int, max as int),
            chunk_views(out@) == prior + groups_chunks(
                spans@,
                class,
                limit as int,
                max as int,
                views.take(k as int),
            ),
        decreases gs@.len() - k,
    {
        let start: u32 = spans[gs[k].members[0]].start;
        let ghost g = views[k as int];
        proof {
            assert(g == indices(gs@[k as int].members@));
            assert(g[0] == gs@[k as int].members@[0]);
            reach_covers_first(spans@, limit as int, g);
            assert(views.take(k + 1).drop_last() =~= views.take(k as int));
            assert(views.take(k + 1).last() == g);
        }
        let ghost before = chunk_views(out@);
        let total: u64 = gs[k].end - start as u64;
        add_chunks(out, class, start, total, max, limit, &gs[k].members);
        assert(chunk_views(out@) =~= prior + groups_chunks(
            spans@,
            class,
            limit as int,
            max as int,
            views.take(k + 1),
        ));
        k = k + 1;
    }
    assert(views.take(k as int) =~= views);
}

fn can_split(total: u64, max: u32) -> (r: bool)
    ensures
        r == splittable(total as int, max as int),
{
    if max == 0 {
        return total == 0;
    }
    let mut remaining: u64 = total;
    while remaining > 0
        invariant
            max > 0,
            splittable(total as int, max as int) == splittable(remaining as int, max as int),
        decreases remaining,
    {
        let len: u64 = (if remaining <= max as u64 {
            remaining
        } else {
            max as u64
        }) % 0x1_0000;
        if len == 0 {
            return false;
        }
        remaining = remaining - len;
    }
    true
}

/// Whether every group of a class can be split.
pub fn can_plan_class(spans: &Vec<Span>, class: u8, limit: u32, max: u32) -> (r: bool)
    ensures
        r == class_splittable(spans@, class, limit as int, max as int),
{
    let order = sort_by_address(spans, class);
    proof {
        let w = indices(order@);
        assert forall|a: int| 0 <= a < order@.len() implies #[trigger] order@[a]
            < spans@.len() by {
            assert(w[a] == order@[a]);
            assert(w.contains(w[a]));
        }
    }
    let gs = build_groups(spans, limit, &order);
    let ghost views = group_views(gs@);
    let mut k: usize = 0;
    while k < gs.len()
        invariant
            k <= gs@.len(),
            views == group_views(gs@),
            views == groups(spans@, limit as int, address_order(spans@, class)),
            groups_agree(spans@, limit as int, gs@),
            forall|j: int|
                0 <= j < k ==> splittable(
                    reach(spans@, limit as int, #[trigger] views[j]) - spans@[views[j][0]].start,
                    max as int,
                ),
        decreases gs@.len() - k,
    {
        let start: u32 = spans[gs[k].members[0]].start;
        let ghost g = views[k as int];
        proof {
            assert(g == indices(gs@[k as int].members@));
            assert(g[0] == gs@[k as int].members@[0]);
            reach_covers_first(spans@, limit as int, g);
        }
        let total: u64 = gs[k].end - start as u64;
        if !can_split(total, max) {
            assert(!splittable(
                reach(spans@, limit as int, views[k as int]) - spans@[views[k as int][0]].start,
                max as int,
            ));
            return false;
        }
        k = k + 1;
    }
    true
}

proof fn reach_covers_first(spans: Seq<Span>, limit: int, group: Seq<int>)
    requires
        group.len() > 0,
    ensures
        span_end(spans[group[0]]) <= reach(spans, limit, group),
    decreases group.len(),
{
    if group.len() > 1 {
        reach_covers_first(spans, limit, group.drop_last());
        assert(group.drop_last()[0] == group[0]);
    }
}

// ---------------------------------------------------------------------------
// What plans guarantee
// ---------------------------------------------------------------------------

/// Requests for a group follow each other without gap: the first one starts at `start`, each
/// further one where the one before ends; each asks for 1 to `max` addresses; and together, where
/// the group can be split, they cover every address of it up to `limit`.
pub proof fn chunks_tile(
    class: u8,
    start: int,
    remaining: int,
    max: int,
    limit: int,
    members: Seq<int>,
)
    ensures
        ({
            let cs = chunks(class, start, remaining, max, limit, members);
            &&& cs.len() > 0 ==> cs[0].start == start
            &&& forall|k: int|
                0 <= k < cs.len() ==> {
                    &&& 1 <= (#[trigger] cs[k]).len <= max
                    &&& cs[k].len <= 0xFFFF
                    &&& start <= cs[k].start
                    &&& cs[k].start + cs[k].len <= start + remaining
                    &&& start <= limit ==> cs[k].start <= limit
                    &&& cs[k].class == class
                    &&& cs[k].members == members
                }
            &&& forall|j: int, k: int|
                0 <= j < k < cs.len() ==> (#[trigger] cs[j]).start + cs[j].len <= (
                #[trigger] cs[k]).start
            &&& splittable(remaining, max) ==> forall|w: int|
                start <= w < start + remaining && w <= limit ==> #[trigger] is_read(cs, w)
        }),
    decreases remaining,
{
    let cs = chunks(class, start, remaining, max, limit, members);
    let len = chunk_len(remaining, max);
    if remaining > 0 && max > 0 && len > 0 {
        let first = ChunkView { class, start, len, members };
        assert(cs[0] == first);
        if start + len > limit {
            assert forall|w: int| start <= w < start + remaining && w <= limit implies #[trigger]
                is_read(cs, w) by {
                assert(cs[0].start <= w < cs[0].start + cs[0].len);
            }
        } else {
            let rest = chunks(class, start + len, remaining - len, max, limit, members);
            chunks_tile(class, start + len, remaining - len, max, limit, members);
            assert(cs =~= seq![first] + rest);
            assert forall|k: int| 1 <= k < cs.len() implies #[trigger] cs[k] == rest[k - 1] by {}
            assert forall|w: int|
                splittable(remaining, max) && start <= w < start + remaining && w
                    <= limit implies #[trigger] is_read(cs, w) by {
                if w < start + len {
                    assert(cs[0].start <= w < cs[0].start + cs[0].len);
                } else {
                    assert(is_read(rest, w));
                    let k = choose|k: int|
                        0 <= k < rest.len() && (#[trigger] rest[k]).start <= w < rest[k].start
                            + rest[k].len;
                    assert(cs[k + 1] == rest[k]);
                }
            }
        }
    }
}

/// Some request of `cs` reads address `w`.
pub open spec fn is_read(cs: Seq<ChunkView>, w: int) -> bool {
    exists|k: int| 0 <= k < cs.len() && (#[trigger] cs[k]).start <= w < cs[k].start + cs[k].len
}

/// Some request of `cs` reads address `w` on behalf of span `i`.
pub open spec fn is_read_for(cs: Seq<ChunkView>, w: int, i: int) -> bool {
    exists|k: int|
        {
            &&& 0 <= k < cs.len()
            &&& (#[trigger] cs[k]).start <= w < cs[k].start + cs[k].len
            &&& cs[k].members.contains(i)
        }
}

proof fn reach_covers_members(spans: Seq<Span>, limit: int, group: Seq<int>, a: int)
    requires
        0 <= a < group.len(),
    ensures
        span_end(spans[group[a]]) <= reach(spans, limit, group) || limit < reach(
            spans,
            limit,
            group,
        ),
    decreases group.len(),
{
    if group.len() > 1 {
        if a < group.len() - 1 {
            reach_covers_members(spans, limit, group.drop_last(), a);
            assert(group.drop_last()[a] == group[a]);
        }
    }
}

/// Index `i` stands at position `b` of group `k`.
spec fn stands_in(gs: Seq<Seq<int>>, k: int, b: int, i: int) -> bool {
    0 <= k < gs.len() && 0 <= b < gs[k].len() && gs[k][b] == i
}

/// The groups after index `i` was taken: all members stay where they were, and `i` is the last
/// one.
proof fn groups_grow(spans: Seq<Span>, limit: int, order: Seq<int>)
    requires
        order.len() > 0,
    ensures
        ({
            let gs0 = groups(spans, limit, order.drop_last());
            let gs = groups(spans, limit, order);
            let last = gs.len() - 1;
            &&& gs.len() > 0
            &&& gs0.len() <= gs.len()
            &&& gs[last].len() > 0
            &&& gs[last].last() == order.last()
            &&& forall|k: int, b: int, i: int| #[trigger]
                stands_in(gs0, k, b, i) ==> stands_in(gs, k, b, i)
            &&& forall|k: int, b: int, i: int| #[trigger]
                stands_in(gs, k, b, i) ==> stands_in(gs0, k, b, i) || (k == last && b
                    == gs[last].len() - 1)
        }),
{
    let gs0 = groups(spans, limit, order.drop_last());
    let gs = groups(spans, limit, order);
    let i = order.last();
    if gs0.len() > 0 && joins(spans, limit, gs0.last(), i) {
        assert(gs[gs.len() - 1] == gs0.last().push(i));
    } else {
        assert(gs[gs.len() - 1] == seq![i]);
    }
}

/// Each index of the order stands in a group, no other does, each group is not empty, and it
/// starts at its lowest address.
proof fn groups_partition(spans: Seq<Span>, limit: int, order: Seq<int>)
    requires
        forall|a: int, b: int|
            0 <= a < b < order.len() ==> comes_first(
                spans,
                #[trigger] order[a],
                #[trigger] order[b],
            ),
    ensures
        ({
            let gs = groups(spans, limit, order);
            &&& forall|a: int| 0 <= a < order.len() ==> #[trigger] has_group(gs, order[a])
            &&& forall|k: int| 0 <= k < gs.len() ==> (#[trigger] gs[k]).len() > 0
            &&& forall|k: int, b: int, i: int| #[trigger]
                stands_in(gs, k, b, i) ==> order.contains(i) && spans[gs[k][0]].start
                    <= spans[i].start
        }),
    decreases order.len(),
{
    if order.len() > 0 {
        let rest = order.drop_last();
        assert forall|a: int, b: int| 0 <= a < b < rest.len() implies comes_first(
            spans,
            #[trigger] rest[a],
            #[trigger] rest[b],
        ) by {
            assert(comes_first(spans, order[a], order[b]));
        }
        groups_partition(spans, limit, rest);
        groups_grow(spans, limit, order);
        let gs0 = groups(spans, limit, rest);
        let gs = groups(spans, limit, order);
        let last = gs.len() - 1;
        let n = order.len() - 1;
        assert(stands_in(gs, last, gs[last].len() - 1, order[n]));
        assert forall|a: int| 0 <= a < order.len() implies #[trigger] has_group(gs, order[a]) by {
            if a < n {
                assert(has_group(gs0, rest[a]));
                let (k, b) = choose|k: int, b: int| stands_in(gs0, k, b, order[a]);
                assert(stands_in(gs, k, b, order[a]));
            }
        }
        assert forall|k: int| 0 <= k < gs.len() implies (#[trigger] gs[k]).len() > 0 by {
            if k < last {
                assert(gs0[k].len() > 0);
            }
        }
        assert forall|k: int, b: int, i: int| #[trigger] stands_in(gs, k, b, i) implies
            order.contains(i) && spans[gs[k][0]].start <= spans[i].start by {
            if stands_in(gs0, k, b, i) {
                assert(rest.contains(i));
                let p = choose|p: int| 0 <= p < rest.len() && rest[p] == i;
                assert(order[p] == i);
                assert(stands_in(gs0, k, 0, gs0[k][0]));
                assert(stands_in(gs, k, 0, gs0[k][0]));
            } else {
                assert(i == order[n]);
                if stands_in(gs0, k, 0, gs[k][0]) {
                    assert(rest.contains(gs[k][0]));
                    let p = choose|p: int| 0 <= p < rest.len() && rest[p] == gs[k][0];
                    assert(comes_first(spans, order[p], order[n]));
                } else {
                    assert(stands_in(gs, k, 0, gs[k][0]));
                }
            }
        }
    }
}

/// Index `i` stands in some group.
spec fn has_group(gs: Seq<Seq<int>>, i: int) -> bool {
    exists|k: int, b: int| stands_in(gs, k, b, i)
}

proof fn groups_chunks_has(
    spans: Seq<Span>,
    class: u8,
    limit: int,
    max: int,
    gs: Seq<Seq<int>>,
    k: int,
    c: int,
)
    requires
        0 <= k < gs.len(),
        0 <= c < group_chunks(spans, class, limit, max, gs[k]).len(),
    ensures
        exists|p: int|
            0 <= p < groups_chunks(spans, class, limit, max, gs).len() && #[trigger] groups_chunks(
                spans,
                class,
                limit,
                max,
                gs,
            )[p] == group_chunks(spans, class, limit, max, gs[k])[c],
    decreases gs.len(),
{
    let all = groups_chunks(spans, class, limit, max, gs);
    let rest = groups_chunks(spans, class, limit, max, gs.drop_last());
    if k == gs.len() - 1 {
        assert(all[rest.len() + c] == group_chunks(spans, class, limit, max, gs[k])[c]);
    } else {
        assert(gs.drop_last()[k] == gs[k]);
        groups_chunks_has(spans, class, limit, max, gs.drop_last(), k, c);
        let p = choose|p: int|
            0 <= p < rest.len() && #[trigger] rest[p] == group_chunks(
                spans,
                class,
                limit,
                max,
                gs[k],
            )[c];
        assert(all[p] == rest[p]);
    }
}

/// A plan reads every address of every span of the class, up to `limit`, on behalf of that
/// span.
pub proof fn plan_reads_every_address(
    spans: Seq<Span>,
    class: u8,
    limit: int,
    max: int,
    i: int,
    w: int,
)
    requires
        class_splittable(spans, class, limit, max),
        0 <= i < spans.len(),
        spans[i].class == class,
        spans[i].start <= w < span_end(spans[i]),
        w <= limit,
    ensures
        is_read_for(class_plan(spans, class, limit, max), w, i),
{
    address_order_exists(spans, class);
    let order = address_order(spans, class);
    assert(order.contains(i));
    let a = choose|a: int| 0 <= a < order.len() && order[a] == i;
    groups_partition(spans, limit, order);
    let gs = groups(spans, limit, order);
    assert(has_group(gs, order[a]));
    let (k, b) = choose|k: int, b: int| stands_in(gs, k, b, i);
    let g = gs[k];
    let start = spans[g[0]].start as int;
    reach_covers_members(spans, limit, g, b);
    let total = reach(spans, limit, g) - start;
    chunks_tile(class, start, total, max, limit, g);
    let cs = group_chunks(spans, class, limit, max, g);
    assert(is_read(cs, w));
    let c = choose|c: int|
        0 <= c < cs.len() && (#[trigger] cs[c]).start <= w < cs[c].start + cs[c].len;
    groups_chunks_has(spans, class, limit, max, gs, k, c);
    let plan = class_plan(spans, class, limit, max);
    let p = choose|p: int| 0 <= p < plan.len() && #[trigger] plan[p] == cs[c];
    assert(plan[p].members.contains(i));
}

/// Every span starts within the address space.
pub open spec fn starts_within(spans: Seq<Span>, limit: int) -> bool {
    forall|i: int| 0 <= i < spans.len() ==> (#[trigger] spans[i]).start <= limit
}

/// Every request of a plan asks for 1 to `max` addresses, on behalf of spans of the class, and
/// starts within the address space where the spans do.
pub proof fn plan_respects_maximum(
    spans: Seq<Span>,
    class: u8,
    limit: int,
    max: int,
    p: int,
)
    requires
        0 <= p < class_plan(spans, class, limit, max).len(),
    ensures
        ({
            let c = class_plan(spans, class, limit, max)[p];
            &&& 1 <= c.len <= max
            &&& c.len <= 0xFFFF
            &&& c.class == class
            &&& starts_within(spans, limit) ==> 0 <= c.start <= limit
            &&& forall|b: int|
                0 <= b < c.members.len() ==> 0 <= #[trigger] c.members[b] < spans.len()
                    && spans[c.members[b]].class == class
        }),
{
    address_order_exists(spans, class);
    let order = address_order(spans, class);
    groups_partition(spans, limit, order);
    let gs = groups(spans, limit, order);
    assert forall|k: int, b: int| 0 <= k < gs.len() && 0 <= b < gs[k].len() implies 0
        <= #[trigger] gs[k][b] < spans.len() && spans[gs[k][b]].class == class by {
        assert(stands_in(gs, k, b, gs[k][b]));
        assert(order.contains(gs[k][b]));
    }
    groups_chunks_respect(spans, class, limit, max, gs, p);
}

proof fn groups_chunks_respect(
    spans: Seq<Span>,
    class: u8,
    limit: int,
    max: int,
    gs: Seq<Seq<int>>,
    p: int,
)
    requires
        forall|k: int| 0 <= k < gs.len() ==> (#[trigger] gs[k]).len() > 0,
        forall|k: int, b: int|
            0 <= k < gs.len() && 0 <= b < gs[k].len() ==> 0 <= #[trigger] gs[k][b] < spans.len()
                && spans[gs[k][b]].class == class,
        0 <= p < groups_chunks(spans, class, limit, max, gs).len(),
    ensures
        ({
            let c = groups_chunks(spans, class, limit, max, gs)[p];
            &&& 1 <= c.len <= max
            &&& c.len <= 0xFFFF
            &&& c.class == class
            &&& starts_within(spans, limit) ==> 0 <= c.start <= limit
            &&& forall|b: int|
                0 <= b < c.members.len() ==> 0 <= #[trigger] c.members[b] < spans.len()
                    && spans[c.members[b]].class == class
        }),
    decreases gs.len(),
{
    let rest = groups_chunks(spans, class, limit, max, gs.drop_last());
    if p < rest.len() {
        assert forall|k: int, b: int|
            0 <= k < gs.drop_last().len() && 0 <= b < gs.drop_last()[k].len() implies 0
            <= #[trigger] gs.drop_last()[k][b] < spans.len()
            && spans[gs.drop_last()[k][b]].class == class by {
            assert(gs.drop_last()[k] == gs[k]);
            assert(gs[k][b] == gs.drop_last()[k][b]);
        }
        assert forall|k: int| 0 <= k < gs.drop_last().len() implies (
        #[trigger] gs.drop_last()[k]).len() > 0 by {
            assert(gs.drop_last()[k] == gs[k]);
        }
        groups_chunks_respect(spans, class, limit, max, gs.drop_last(), p);
    } else {
        let g = gs.last();
        assert(gs[gs.len() - 1].len() > 0);
        assert(0 <= gs[gs.len() - 1][0] < spans.len());
        let start = spans[g[0]].start as int;
        chunks_tile(class, start, reach(spans, limit, g) - start, max, limit, g);
        let cs = group_chunks(spans, class, limit, max, g);
        let c = cs[p - rest.len()];
        assert(groups_chunks(spans, class, limit, max, gs)[p] == c);
        assert forall|b: int| 0 <= b < c.members.len() implies 0 <= #[trigger] c.members[b]
            < spans.len() && spans[c.members[b]].class == class by {
            assert(c.members[b] == gs[gs.len() - 1][b]);
        }
    }
}

proof fn reach_stays_below(spans: Seq<Span>, limit: int, group: Seq<int>)
    requires
        group.len() > 0,
        forall|b: int| 0 <= b < group.len() ==> span_end(spans[#[trigger] group[b]]) <= limit,
    ensures
        reach(spans, limit, group) <= limit,
    decreases group.len(),
{
    if group.len() > 1 {
        let rest = group.drop_last();
        assert forall|b: int| 0 <= b < rest.len() implies span_end(spans[#[trigger] rest[b]])
            <= limit by {
            assert(rest[b] == group[b]);
        }
        reach_stays_below(spans, limit, rest);
        assert(span_end(spans[group[group.len() - 1]]) <= limit);
    } else {
        assert(span_end(spans[group[0]]) <= limit);
    }
}

proof fn groups_stay_below(spans: Seq<Span>, limit: int, order: Seq<int>)
    requires
        forall|a: int, b: int|
            0 <= a < b < order.len() ==> comes_first(
                spans,
                #[trigger] order[a],
                #[trigger] order[b],
            ),
        forall|a: int| 0 <= a < order.len() ==> span_end(spans[#[trigger] order[a]]) <= limit,
    ensures
        forall|k: int|
            0 <= k < groups(spans, limit, order).len() ==> reach(
                spans,
                limit,
                #[trigger] groups(spans, limit, order)[k],
            ) <= limit,
{
    groups_partition(spans, limit, order);
    let gs = groups(spans, limit, order);
    assert forall|k: int| 0 <= k < gs.len() implies reach(spans, limit, #[trigger] gs[k])
        <= limit by {
        assert forall|b: int| 0 <= b < gs[k].len() implies span_end(spans[#[trigger] gs[k][b]])
            <= limit by {
            assert(stands_in(gs, k, b, gs[k][b]));
            assert(order.contains(gs[k][b]));
            let a = choose|a: int| 0 <= a < order.len() && order[a] == gs[k][b];
            assert(span_end(spans[order[a]]) <= limit);
        }
        reach_stays_below(spans, limit, gs[k]);
    }
}

proof fn groups_are_apart(spans: Seq<Span>, limit: int, order: Seq<int>)
    requires
        forall|a: int, b: int|
            0 <= a < b < order.len() ==> comes_first(
                spans,
                #[trigger] order[a],
                #[trigger] order[b],
            ),
        forall|a: int| 0 <= a < order.len() - 1 ==> span_end(spans[#[trigger] order[a]]) <= limit,
    ensures
        forall|j: int, k: int|
            0 <= j < k < groups(spans, limit, order).len() ==> reach(
                spans,
                limit,
                #[trigger] groups(spans, limit, order)[j],
            ) < spans[(#[trigger] groups(spans, limit, order)[k])[0]].start,
    decreases order.len(),
{
    groups_partition(spans, limit, order);
    let gs = groups(spans, limit, order);
    if order.len() > 0 {
        let rest = order.drop_last();
        assert forall|a: int, b: int| 0 <= a < b < rest.len() implies comes_first(
            spans,
            #[trigger] rest[a],
            #[trigger] rest[b],
        ) by {
            assert(comes_first(spans, order[a], order[b]));
        }
        assert forall|a: int| 0 <= a < rest.len() implies span_end(spans[#[trigger] rest[a]])
            <= limit by {
            assert(rest[a] == order[a]);
        }
        groups_are_apart(spans, limit, rest);
        groups_stay_below(spans, limit, rest);
        groups_partition(spans, limit, rest);
        let gs0 = groups(spans, limit, rest);
        let i = order.last();
        let last = gs.len() - 1;
        let joined = gs0.len() > 0 && joins(spans, limit, gs0.last(), i);
        assert forall|j: int, k: int| 0 <= j < k < gs.len() implies reach(
            spans,
            limit,
            #[trigger] gs[j],
        ) < spans[(#[trigger] gs[k])[0]].start by {
            assert(gs[j] == gs0[j]);
            if joined || k < last {
                assert(gs[k][0] == gs0[k][0]);
                assert(reach(spans, limit, gs0[j]) < spans[gs0[k][0]].start);
            } else {
                let m = gs0.len() - 1;
                assert(gs[k] == seq![i]);
                assert(reach(spans, limit, gs0[m]) <= limit);
                assert(!joins(spans, limit, gs0[m], i));
                assert(spans[i].start > reach(spans, limit, gs0[m]));
                if j < m {
                    assert(reach(spans, limit, gs0[j]) < spans[gs0[m][0]].start);
                    reach_covers_first(spans, limit, gs0[m]);
                }
            }
        }
    }
}

proof fn chunk_ends_below(
    spans: Seq<Span>,
    class: u8,
    limit: int,
    max: int,
    gs: Seq<Seq<int>>,
    bound: int,
)
    requires
        forall|k: int| 0 <= k < gs.len() ==> reach(spans, limit, #[trigger] gs[k]) <= bound,
    ensures
        forall|p: int|
            0 <= p < groups_chunks(spans, class, limit, max, gs).len() ==> {
                let c = #[trigger] groups_chunks(spans, class, limit, max, gs)[p];
                c.start + c.len <= bound
            },
    decreases gs.len(),
{
    if gs.len() > 0 {
        let front = gs.drop_last();
        assert forall|k: int| 0 <= k < front.len() implies reach(spans, limit, #[trigger] front[k])
            <= bound by {
            assert(front[k] == gs[k]);
        }
        chunk_ends_below(spans, class, limit, max, front, bound);
        let g = gs.last();
        assert(gs[gs.len() - 1] == g);
        let start = spans[g[0]].start as int;
        chunks_tile(class, start, reach(spans, limit, g) - start, max, limit, g);
        let rest = groups_chunks(spans, class, limit, max, front);
        let own = group_chunks(spans, class, limit, max, g);
        let all = groups_chunks(spans, class, limit, max, gs);
        assert forall|p: int| 0 <= p < all.len() implies ({
            let c = #[trigger] all[p];
            c.start + c.len <= bound
        }) by {
            if p < rest.len() {
                assert(all[p] == rest[p]);
            } else {
                assert(all[p] == own[p - rest.len()]);
            }
        }
    }
}

proof fn groups_chunks_apart(
    spans: Seq<Span>,
    class: u8,
    limit: int,
    max: int,
    gs: Seq<Seq<int>>,
    p: int,
    q: int,
)
    requires
        forall|j: int, k: int|
            0 <= j < k < gs.len() ==> reach(spans, limit, #[trigger] gs[j]) < spans[(
            #[trigger] gs[k])[0]].start,
        0 <= p < q < groups_chunks(spans, class, limit, max, gs).len(),
    ensures
        ({
            let cs = groups_chunks(spans, class, limit, max, gs);
            cs[p].start + cs[p].len <= cs[q].start
        }),
    decreases gs.len(),
{
    let front = gs.drop_last();
    let rest = groups_chunks(spans, class, limit, max, front);
    let g = gs.last();
    let own = group_chunks(spans, class, limit, max, g);
    let all = groups_chunks(spans, class, limit, max, gs);
    assert forall|j: int, k: int| 0 <= j < k < front.len() implies reach(
        spans,
        limit,
        #[trigger] front[j],
    ) < spans[(#[trigger] front[k])[0]].start by {
        assert(front[j] == gs[j] && front[k] == gs[k]);
    }
    let start = spans[g[0]].start as int;
    chunks_tile(class, start, reach(spans, limit, g) - start, max, limit, g);
    if q < rest.len() {
        groups_chunks_apart(spans, class, limit, max, front, p, q);
        assert(all[p] == rest[p] && all[q] == rest[q]);
    } else if p >= rest.len() {
        assert(all[p] == own[p - rest.len()] && all[q] == own[q - rest.len()]);
    } else {
        assert forall|k: int| 0 <= k < front.len() implies reach(spans, limit, #[trigger] front[k])
            <= start by {
            assert(front[k] == gs[k]);
            assert(gs[gs.len() - 1] == g);
        }
        chunk_ends_below(spans, class, limit, max, front, start);
        assert(all[p] == rest[p] && all[q] == own[q - rest.len()]);
    }
}

/// Where every span of a class but the one at the highest address ends before the end of the
/// address space, no address is read twice: each request of the plan starts at or after the end of
/// those before it.
pub proof fn plan_reads_no_address_twice(
    spans: Seq<Span>,
    class: u8,
    limit: int,
    max: int,
    p: int,
    q: int,
)
    requires
        forall|i: int, j: int|
            0 <= i < spans.len() && 0 <= j < spans.len() && (#[trigger] spans[i]).class == class
                && (#[trigger] spans[j]).class == class && comes_first(spans, i, j) ==> span_end(
                spans[i],
            ) <= limit,
        0 <= p < q < class_plan(spans, class, limit, max).len(),
    ensures
        ({
            let cs = class_plan(spans, class, limit, max);
            cs[p].start + cs[p].len <= cs[q].start
        }),
{
    address_order_exists(spans, class);
    let order = address_order(spans, class);
    assert forall|a: int| 0 <= a < order.len() - 1 implies span_end(spans[#[trigger] order[a]])
        <= limit by {
        assert(order.contains(order[a]));
        assert(order.contains(order[order.len() - 1]));
        assert(comes_first(spans, order[a], order[order.len() - 1]));
        let i = order[a];
        let j = order[order.len() - 1];
        assert(spans[i].class == class && spans[j].class == class);
    }
    groups_are_apart(spans, limit, order);
    groups_chunks_apart(spans, class, limit, max, groups(spans, limit, order), p, q);
}

/// Where no two spans of a class overlap, no address is read twice.
pub proof fn disjoint_spans_are_read_once(
    spans: Seq<Span>,
    class: u8,
    limit: int,
    max: int,
    p: int,
    q: int,
)
    requires
        first_overlap(spans, class, limit) is None,
        forall|k: int|
            0 <= k < spans.len() ==> (#[trigger] spans[k]).start <= limit && 0 < spans[k].len,
        0 <= p < q < class_plan(spans, class, limit, max).len(),
    ensures
        ({
            let cs = class_plan(spans, class, limit, max);
            cs[p].start + cs[p].len <= cs[q].start
        }),
{
    assert forall|i: int, j: int|
        0 <= i < spans.len() && 0 <= j < spans.len() && (#[trigger] spans[i]).class == class && (
        #[trigger] spans[j]).class == class && comes_first(spans, i, j) implies span_end(spans[i])
        <= limit by {
        spans_without_overlap_are_disjoint(spans, class, limit, i, j);
    }
    plan_reads_no_address_twice(spans, class, limit, max, p, q);
}

/// Some span of a group has the address `w`.
spec fn group_has(spans: Seq<Span>, group: Seq<int>, w: int) -> bool {
    exists|b: int|
        0 <= b < group.len() && spans[#[trigger] group[b]].start <= w < span_end(spans[group[b]])
}

/// A group without gaps: every address from its first one to its reach belongs to a span of it.
spec fn without_gaps(spans: Seq<Span>, limit: int, group: Seq<int>) -> bool {
    &&& group.len() > 0
    &&& forall|w: int|
        spans[group[0]].start <= w < reach(spans, limit, group) ==> #[trigger] group_has(
            spans,
            group,
            w,
        )
}

proof fn groups_have_no_gaps(spans: Seq<Span>, limit: int, order: Seq<int>)
    ensures
        forall|k: int|
            0 <= k < groups(spans, limit, order).len() ==> without_gaps(
                spans,
                limit,
                #[trigger] groups(spans, limit, order)[k],
            ),
    decreases order.len(),
{
    if order.len() > 0 {
        let rest = order.drop_last();
        groups_have_no_gaps(spans, limit, rest);
        let gs0 = groups(spans, limit, rest);
        let gs = groups(spans, limit, order);
        let i = order.last();
        assert forall|k: int| 0 <= k < gs.len() implies without_gaps(
            spans,
            limit,
            #[trigger] gs[k],
        ) by {
            if k < gs.len() - 1 {
                assert(gs[k] == gs0[k]);
            } else if gs0.len() > 0 && joins(spans, limit, gs0.last(), i) {
                let g0 = gs0[gs0.len() - 1];
                let g = gs[k];
                assert(g == g0.push(i));
                assert(without_gaps(spans, limit, g0));
                assert(g.drop_last() =~= g0);
                assert(g[0] == g0[0]);
                let before = reach(spans, limit, g0);
                assert forall|w: int|
                    spans[g[0]].start <= w < reach(spans, limit, g) implies #[trigger] group_has(
                    spans,
                    g,
                    w,
                ) by {
                    if w < before {
                        assert(group_has(spans, g0, w));
                        let b = choose|b: int|
                            0 <= b < g0.len() && spans[#[trigger] g0[b]].start <= w < span_end(
                                spans[g0[b]],
                            );
                        assert(g[b] == g0[b]);
                    } else {
                        assert(g[g.len() - 1] == i);
                    }
                }
            } else {
                let g = gs[k];
                assert(g == seq![i]);
                assert forall|w: int|
                    spans[g[0]].start <= w < reach(spans, limit, g) implies #[trigger] group_has(
                    spans,
                    g,
                    w,
                ) by {
                    assert(g[0] == i);
                }
            }
        }
    }
}

proof fn request_belongs_to_a_group(
    spans: Seq<Span>,
    class: u8,
    limit: int,
    max: int,
    gs: Seq<Seq<int>>,
    p: int,
) -> (k: int)
    requires
        0 <= p < groups_chunks(spans, class, limit, max, gs).len(),
    ensures
        0 <= k < gs.len(),
        ({
            let c = groups_chunks(spans, class, limit, max, gs)[p];
            &&& c.members == gs[k]
            &&& spans[gs[k][0]].start <= c.start
            &&& c.start + c.len <= reach(spans, limit, gs[k])
        }),
    decreases gs.len(),
{
    let front = gs.drop_last();
    let rest = groups_chunks(spans, class, limit, max, front);
    if p < rest.len() {
        let k = request_belongs_to_a_group(spans, class, limit, max, front, p);
        assert(front[k] == gs[k]);
        assert(groups_chunks(spans, class, limit, max, gs)[p] == rest[p]);
        k
    } else {
        let g = gs.last();
        let start = spans[g[0]].start as int;
        chunks_tile(class, start, reach(spans, limit, g) - start, max, limit, g);
        let own = group_chunks(spans, class, limit, max, g);
        assert(groups_chunks(spans, class, limit, max, gs)[p] == own[p - rest.len()]);
        gs.len() - 1
    }
}

/// Nothing else is read: every address that a request of the plan asks for belongs to a span of
/// the class that the request is made for.
pub proof fn plan_reads_addresses_of_spans_only(
    spans: Seq<Span>,
    class: u8,
    limit: int,
    max: int,
    p: int,
    w: int,
) -> (b: int)
    requires
        0 <= p < class_plan(spans, class, limit, max).len(),
        class_plan(spans, class, limit, max)[p].start <= w,
        w < class_plan(spans, class, limit, max)[p].start + class_plan(
            spans,
            class,
            limit,
            max,
        )[p].len,
    ensures
        ({
            let c = class_plan(spans, class, limit, max)[p];
            &&& 0 <= b < c.members.len()
            &&& 0 <= c.members[b] < spans.len()
            &&& spans[c.members[b]].class == class
            &&& spans[c.members[b]].start <= w < span_end(spans[c.members[b]])
        }),
{
    let order = address_order(spans, class);
    let gs = groups(spans, limit, order);
    let k = request_belongs_to_a_group(spans, class, limit, max, gs, p);
    groups_have_no_gaps(spans, limit, order);
    assert(without_gaps(spans, limit, gs[k]));
    assert(group_has(spans, gs[k], w));
    let b = choose|b: int|
        0 <= b < gs[k].len() && spans[#[trigger] gs[k][b]].start <= w < span_end(spans[gs[k][b]]);
    plan_respects_maximum(spans, class, limit, max, p);
    let c = class_plan(spans, class, limit, max)[p];
    assert(c.members[b] == gs[k][b]);
    b
}

proof fn requests_before_the_last_are_full(
    class: u8,
    start: int,
    remaining: int,
    max: int,
    limit: int,
    members: Seq<int>,
    k: int,
)
    requires
        1 <= max <= 0xFFFF,
        0 <= k,
        k + 1 < chunks(class, start, remaining, max, limit, members).len(),
    ensures
        chunks(class, start, remaining, max, limit, members)[k].len == max,
    decreases remaining,
{
    let len = chunk_len(remaining, max);
    let cs = chunks(class, start, remaining, max, limit, members);
    let rest = chunks(class, start + len, remaining - len, max, limit, members);
    assert(cs =~= seq![ChunkView { class, start, len, members }] + rest);
    if k > 0 {
        requests_before_the_last_are_full(
            class,
            start + len,
            remaining - len,
            max,
            limit,
            members,
            k - 1,
        );
        assert(cs[k] == rest[k - 1]);
    } else {
        assert(cs[0].len == len);
        assert(rest.len() > 0);
    }
}

proof fn touching_requests_of_groups_are_full(
    spans: Seq<Span>,
    class: u8,
    limit: int,
    max: int,
    gs: Seq<Seq<int>>,
    p: int,
)
    requires
        1 <= max <= 0xFFFF,
        forall|j: int, k: int|
            0 <= j < k < gs.len() ==> reach(spans, limit, #[trigger] gs[j]) < spans[(
            #[trigger] gs[k])[0]].start,
        0 <= p,
        p + 1 < groups_chunks(spans, class, limit, max, gs).len(),
    ensures
        ({
            let cs = groups_chunks(spans, class, limit, max, gs);
            cs[p].start + cs[p].len == cs[p + 1].start ==> cs[p].len == max
        }),
    decreases gs.len(),
{
    let front = gs.drop_last();
    let rest = groups_chunks(spans, class, limit, max, front);
    let g = gs.last();
    let own = group_chunks(spans, class, limit, max, g);
    let all = groups_chunks(spans, class, limit, max, gs);
    let start = spans[g[0]].start as int;
    let n = rest.len() as int;
    chunks_tile(class, start, reach(spans, limit, g) - start, max, limit, g);
    if p + 1 < n {
        assert forall|j: int, k: int| 0 <= j < k < front.len() implies reach(
            spans,
            limit,
            #[trigger] front[j],
        ) < spans[(#[trigger] front[k])[0]].start by {
            assert(front[j] == gs[j] && front[k] == gs[k]);
        }
        touching_requests_of_groups_are_full(spans, class, limit, max, front, p);
        assert(all[p] == rest[p] && all[p + 1] == rest[p + 1]);
    } else if p >= n {
        requests_before_the_last_are_full(
            class,
            start,
            reach(spans, limit, g) - start,
            max,
            limit,
            g,
            p - n,
        );
        assert(all[p] == own[p - n] && all[p + 1] == own[p + 1 - n]);
    } else {
        let k = request_belongs_to_a_group(spans, class, limit, max, front, p);
        assert(front[k] == gs[k]);
        assert(gs[gs.len() - 1] == g);
        assert(reach(spans, limit, gs[k]) < spans[gs[gs.len() - 1][0]].start);
        assert(all[p] == rest[p] && all[p + 1] == own[0]);
    }
}

/// Addresses that touch are read together: a request ends right before the next one only where it
/// asks for as much as it may.
pub proof fn touching_requests_are_full(
    spans: Seq<Span>,
    class: u8,
    limit: int,
    max: int,
    p: int,
)
    requires
        1 <= max <= 0xFFFF,
        first_overlap(spans, class, limit) is None,
        forall|k: int|
            0 <= k < spans.len() ==> (#[trigger] spans[k]).start <= limit && 0 < spans[k].len,
        0 <= p,
        p + 1 < class_plan(spans, class, limit, max).len(),
    ensures
        ({
            let cs = class_plan(spans, class, limit, max);
            cs[p].start + cs[p].len == cs[p + 1].start ==> cs[p].len == max
        }),
{
    address_order_exists(spans, class);
    let order = address_order(spans, class);
    assert forall|a: int| 0 <= a < order.len() - 1 implies span_end(spans[#[trigger] order[a]])
        <= limit by {
        assert(order.contains(order[a]));
        assert(order.contains(order[order.len() - 1]));
        assert(comes_first(spans, order[a], order[order.len() - 1]));
        spans_without_overlap_are_disjoint(
            spans,
            class,
            limit,
            order[a],
            order[order.len() - 1],
        );
    }
    groups_are_apart(spans, limit, order);
    touching_requests_of_groups_are_full(
        spans,
        class,
        limit,
        max,
        groups(spans, limit, order),
        p,
    );
}

} // verus!
