//! FINS reads: which requests a cycle makes, and what their answers do to the tags.

use crate::core_model::registry::{RegistryView, TagRegistry};
use crate::core_model::tag_value::{
    copy_bytes, reordered, TagDataType, TagQuality, TagQualityView,
};
use crate::driver_common;
use crate::driver_common::plan::{
    can_plan_class, chunk_views, class_plan, class_splittable, indices, is_read_for, plan_class,
    plan_reads_every_address, plan_respects_maximum, Chunk, ChunkView, Span,
};
use crate::driver_fins::codec::{decode_value, decoded};
use crate::driver_fins::errors::{error_text, DriverError, DriverErrorView};
use crate::driver_fins::mapping::{mapping_views, TagMapping, TagMappingView};
use crate::driver_fins::validate::{mapping_span, mapping_spans, spans_of, MAX_ADDRESS};
use crate::text;
use crate::time::Timestamp;
use vstd::prelude::*;
use vstd::string::*;

verus! {

/// The requests that read the first `n` areas, one area after the other.
pub open spec fn areas_plan(spans: Seq<Span>, max: int, n: nat) -> Seq<ChunkView>
    decreases n,
{
    if n == 0 {
        Seq::empty()
    } else {
        areas_plan(spans, max, (n - 1) as nat) + class_plan(
            spans,
            (n - 1) as u8,
            MAX_ADDRESS as int,
            max,
        )
    }
}

/// The read requests of a cycle, each for `max` words at most, in the order of the areas.
pub open spec fn read_plan(ms: Seq<TagMappingView>, max: u32) -> Seq<ChunkView> {
    areas_plan(mapping_spans(ms), max as int, 256)
}

/// Whether the mappings can be read with requests for `max` words at most.
pub open spec fn plannable(ms: Seq<TagMappingView>, max: u32) -> bool {
    forall|area: u8| #[trigger]
        class_splittable(mapping_spans(ms), area, MAX_ADDRESS as int, max as int)
}

/// Whether the mappings can be read with requests for `max` words at most.
pub fn can_plan(mappings: &Vec<TagMapping>, max: u32) -> (r: bool)
    ensures
        r == plannable(mapping_views(mappings@), max),
{
    let spans = spans_of(mappings);
    let mut area: u16 = 0;
    while area < 256
        invariant
            area <= 256,
            spans@ == mapping_spans(mapping_views(mappings@)),
            forall|a: u8|
                a < area ==> #[trigger] class_splittable(
                    spans@,
                    a,
                    MAX_ADDRESS as int,
                    max as int,
                ),
        decreases 256 - area,
    {
        if !can_plan_class(&spans, area as u8, MAX_ADDRESS, max) {
            return false;
        }
        area = area + 1;
    }
    true
}

/// The read requests of a cycle.
pub fn plan_reads(mappings: &Vec<TagMapping>, max: u32) -> (r: Vec<Chunk>)
    requires
        plannable(mapping_views(mappings@), max),
    ensures
        chunk_views(r@) == read_plan(mapping_views(mappings@), max),
{
    let spans = spans_of(mappings);
    let mut plan: Vec<Chunk> = Vec::new();
    assert(chunk_views(plan@) =~= Seq::empty());
    let mut area: u16 = 0;
    while area < 256
        invariant
            area <= 256,
            spans@ == mapping_spans(mapping_views(mappings@)),
            plannable(mapping_views(mappings@), max),
            chunk_views(plan@) == areas_plan(spans@, max as int, area as nat),
        decreases 256 - area,
    {
        assert(class_splittable(spans@, area as u8, MAX_ADDRESS as int, max as int));
        plan_class(&spans, area as u8, MAX_ADDRESS, max, &mut plan);
        area = area + 1;
    }
    plan
}

proof fn areas_plan_is_sound(spans: Seq<Span>, max: int, n: nat, p: int)
    requires
        n <= 256,
        0 <= p < areas_plan(spans, max, n).len(),
    ensures
        ({
            let c = areas_plan(spans, max, n)[p];
            &&& 0 <= c.start <= MAX_ADDRESS
            &&& 1 <= c.len <= max
            &&& c.len <= 0xFFFF
            &&& forall|b: int|
                0 <= b < c.members.len() ==> 0 <= #[trigger] c.members[b] < spans.len()
                    && spans[c.members[b]].class == c.class
        }),
    decreases n,
{
    let rest = areas_plan(spans, max, (n - 1) as nat);
    let area = (n - 1) as u8;
    if p < rest.len() {
        areas_plan_is_sound(spans, max, (n - 1) as nat, p);
        assert(areas_plan(spans, max, n)[p] == rest[p]);
    } else {
        let own = class_plan(spans, area, MAX_ADDRESS as int, max);
        plan_respects_maximum(spans, area, MAX_ADDRESS as int, max, p - rest.len());
        assert(areas_plan(spans, max, n)[p] == own[p - rest.len()]);
    }
}

/// Every request of the plan is made on behalf of mappings of its area, and asks for no more
/// words than it may.
pub proof fn read_plan_is_sound(ms: Seq<TagMappingView>, max: u32, p: int)
    requires
        0 <= p < read_plan(ms, max).len(),
    ensures
        ({
            let c = read_plan(ms, max)[p];
            &&& 0 <= c.start <= MAX_ADDRESS
            &&& 1 <= c.len <= max
            &&& c.len <= 0xFFFF
            &&& forall|b: int|
                0 <= b < c.members.len() ==> 0 <= #[trigger] c.members[b] < ms.len()
                    && ms[c.members[b]].area == c.class
        }),
{
    areas_plan_is_sound(mapping_spans(ms), max as int, 256, p);
    let c = read_plan(ms, max)[p];
    assert forall|b: int| 0 <= b < c.members.len() implies 0 <= #[trigger] c.members[b] < ms.len()
        && ms[c.members[b]].area == c.class by {
        assert(mapping_spans(ms)[c.members[b]] == mapping_span(ms[c.members[b]]));
    }
}

proof fn areas_plan_has_area(spans: Seq<Span>, max: int, n: nat, area: u8, k: int)
    requires
        area < n <= 256,
        0 <= k < class_plan(spans, area, MAX_ADDRESS as int, max).len(),
    ensures
        exists|p: int|
            0 <= p < areas_plan(spans, max, n).len() && #[trigger] areas_plan(spans, max, n)[p]
                == class_plan(spans, area, MAX_ADDRESS as int, max)[k],
    decreases n,
{
    let all = areas_plan(spans, max, n);
    let rest = areas_plan(spans, max, (n - 1) as nat);
    let own = class_plan(spans, area, MAX_ADDRESS as int, max);
    if area == n - 1 {
        assert(all[rest.len() + k] == own[k]);
    } else {
        areas_plan_has_area(spans, max, (n - 1) as nat, area, k);
        let p = choose|p: int| 0 <= p < rest.len() && #[trigger] rest[p] == own[k];
        assert(all[p] == own[k]);
    }
}

/// A cycle reads every address of every mapping, up to the highest address, on behalf of that
/// mapping.
pub proof fn cycle_reads_every_mapped_address(ms: Seq<TagMappingView>, max: u32, i: int, w: int)
    requires
        plannable(ms, max),
        0 <= i < ms.len(),
        ms[i].address <= w < ms[i].address + ms[i].word_count,
        w <= MAX_ADDRESS,
    ensures
        is_read_for(read_plan(ms, max), w, i),
{
    let spans = mapping_spans(ms);
    let limit = MAX_ADDRESS as int;
    let area = ms[i].area;
    assert(spans[i] == mapping_span(ms[i]));
    assert(class_splittable(spans, area, limit, max as int));
    plan_reads_every_address(spans, area, limit, max as int, i, w);
    let own = class_plan(spans, area, limit, max as int);
    let k = choose|k: int|
        {
            &&& 0 <= k < own.len()
            &&& (#[trigger] own[k]).start <= w < own[k].start + own[k].len
            &&& own[k].members.contains(i)
        };
    areas_plan_has_area(spans, max as int, 256, area, k);
    let plan = read_plan(ms, max);
    let p = choose|p: int| 0 <= p < plan.len() && #[trigger] plan[p] == own[k];
    assert(plan[p].start <= w < plan[p].start + plan[p].len);
}

// ---------------------------------------------------------------------------
// Answers
// ---------------------------------------------------------------------------

/// First address that mapping `m` and request `c` have in common.
pub open spec fn common_start(m: TagMappingView, c: ChunkView) -> int {
    if m.address >= c.start {
        m.address as int
    } else {
        c.start
    }
}

/// First address after those that mapping `m` and request `c` have in common.
pub open spec fn common_end(m: TagMappingView, c: ChunkView) -> int {
    if m.address + m.word_count <= c.start + c.len {
        m.address + m.word_count
    } else {
        c.start + c.len
    }
}

/// The quality of a tag whose bytes hold no value.
pub open spec fn decode_failed(e: DriverErrorView) -> TagQualityView {
    TagQualityView::Error("decode_failed: "@ + error_text(e))
}

/// The value of a mapping in the bytes that were read for it, or why it gets none: the tag has no
/// definition, or the bytes hold no value of its type.
pub open spec fn value_read(reg: RegistryView, m: TagMappingView, bytes: Seq<u8>) -> Result<
    crate::core_model::tag_value::TagValueView,
    DriverErrorView,
> {
    if !reg.definitions.contains_key(m.tag_id) {
        Err(DriverErrorView::Mapping("Tag id not found in registry: "@ + m.tag_id))
    } else {
        decoded(m.data_type, reordered(m.byte_order, bytes), m.bit_offset)
    }
}

/// The registry after a mapping took its part of the bytes that answer a request.
///
/// A mapping that has no address in common with the request takes nothing. An answer that is too
/// short, and bytes that hold no value, are errors of the tag.
pub open spec fn take_part(
    reg: RegistryView,
    m: TagMappingView,
    c: ChunkView,
    raw: Seq<u8>,
    now: Timestamp,
) -> RegistryView {
    let start = common_start(m, c);
    let end = common_end(m, c);
    if start >= end {
        reg
    } else if raw.len() < 2 * c.len {
        reg.set_quality(m.tag_id, TagQualityView::Error("short_payload"@), now)
    } else {
        match value_read(reg, m, raw.subrange(2 * (start - c.start), 2 * (end - c.start))) {
            Ok(v) => reg.update(m.tag_id, v, TagQualityView::Good, now, now),
            Err(e) => reg.set_quality(m.tag_id, decode_failed(e), now),
        }
    }
}

/// The registry after the first `n` mappings of a request took their part of the answer.
pub open spec fn take_parts(
    reg: RegistryView,
    ms: Seq<TagMappingView>,
    c: ChunkView,
    raw: Seq<u8>,
    now: Timestamp,
    n: nat,
) -> RegistryView
    decreases n,
{
    if n == 0 {
        reg
    } else {
        take_part(
            take_parts(reg, ms, c, raw, now, (n - 1) as nat),
            ms[c.members[n - 1]],
            c,
            raw,
            now,
        )
    }
}

/// The registry after the quality of the first `n` mappings of a request was set.
pub open spec fn mark(
    reg: RegistryView,
    ms: Seq<TagMappingView>,
    members: Seq<int>,
    quality: TagQualityView,
    now: Timestamp,
    n: nat,
) -> RegistryView
    decreases n,
{
    if n == 0 {
        reg
    } else {
        mark(reg, ms, members, quality, now, (n - 1) as nat).set_quality(
            ms[members[n - 1]].tag_id,
            quality,
            now,
        )
    }
}

/// The bits of booleans can be taken out of words.
pub open spec fn bits_in_range(ms: Seq<TagMappingView>) -> bool {
    forall|i: int|
        0 <= i < ms.len() && (#[trigger] ms[i]).data_type == TagDataType::Bool
            ==> ms[i].bit_offset < 16
}

/// Decode the bytes that were read for a mapping, and let its tag hold the value.
pub fn decode_and_update_tag(
    registry: &mut TagRegistry,
    m: &TagMapping,
    bytes: Vec<u8>,
    now: Timestamp,
) -> (r: Result<(), DriverError>)
    requires
        m@.data_type == TagDataType::Bool ==> m@.bit_offset < 16,
    ensures
        match value_read(old(registry)@, m@, bytes@) {
            Ok(v) => r is Ok && final(registry)@ == old(registry)@.update(
                m@.tag_id,
                v,
                TagQualityView::Good,
                now,
                now,
            ),
            Err(e) => r matches Err(x) && x@ == e && final(registry)@ == old(registry)@,
        },
        old(registry)@.consistent() ==> final(registry)@.consistent(),
{
    let ordered = driver_common::apply_byte_order(bytes, &m.byte_order);
    if registry.get_definition(m.tag_id.as_str()).is_err() {
        return Err(
            DriverError::Mapping(
                text::join2("Tag id not found in registry: ", m.tag_id.as_str()),
            ),
        );
    }
    match decode_value(m.data_type, ordered.as_slice(), m.bit_offset) {
        Ok(v) => {
            let _ = registry.update_tag_value_at(m.tag_id.as_str(), v, TagQuality::Good, now, now);
            Ok(())
        },
        Err(e) => Err(e),
    }
}

fn take_member_part(
    registry: &mut TagRegistry,
    m: &TagMapping,
    chunk: &Chunk,
    raw: &Vec<u8>,
    now: Timestamp,
)
    requires
        m@.data_type == TagDataType::Bool ==> m@.bit_offset < 16,
    ensures
        final(registry)@ == take_part(old(registry)@, m@, chunk@, raw@, now),
        old(registry)@.consistent() ==> final(registry)@.consistent(),
{
    let map_start: u64 = m.address as u64;
    let map_end: u64 = m.address as u64 + m.word_count as u64;
    let chunk_start: u64 = chunk.start as u64;
    let chunk_end: u64 = chunk.start as u64 + chunk.len as u64;
    let start: u64 = if map_start >= chunk_start {
        map_start
    } else {
        chunk_start
    };
    let end: u64 = if map_end <= chunk_end {
        map_end
    } else {
        chunk_end
    };
    if start >= end {
        return ;
    }
    if raw.len() < 2 * chunk.len as usize {
        let _ = registry.set_tag_quality_at(
            m.tag_id.as_str(),
            TagQuality::Error("short_payload".to_owned()),
            now,
        );
        return ;
    }
    assert(end - chunk_start <= chunk.len);
    let from: usize = 2 * (start - chunk_start) as usize;
    let to: usize = 2 * (end - chunk_start) as usize;
    let part = copy_bytes(vstd::slice::slice_subrange(raw.as_slice(), from, to));
    match decode_and_update_tag(registry, m, part, now) {
        Ok(_) => {},
        Err(e) => {
            let _ = registry.set_tag_quality_at(
                m.tag_id.as_str(),
                TagQuality::Error(text::join2("decode_failed: ", e.message().as_str())),
                now,
            );
        },
    }
}

/// Let every mapping of a request take its part of the bytes that answer it.
pub fn take_answer(
    registry: &mut TagRegistry,
    mappings: &Vec<TagMapping>,
    chunk: &Chunk,
    raw: &Vec<u8>,
    now: Timestamp,
)
    requires
        bits_in_range(mapping_views(mappings@)),
        forall|b: int|
            0 <= b < chunk.members@.len() ==> #[trigger] chunk.members@[b] < mappings@.len(),
    ensures
        final(registry)@ == take_parts(
            old(registry)@,
            mapping_views(mappings@),
            chunk@,
            raw@,
            now,
            chunk@.members.len(),
        ),
        old(registry)@.consistent() ==> final(registry)@.consistent(),
{
    let ghost before = registry@;
    let ghost ms = mapping_views(mappings@);
    let mut k: usize = 0;
    while k < chunk.members.len()
        invariant
            k <= chunk.members@.len(),
            ms == mapping_views(mappings@),
            before == old(registry)@,
            bits_in_range(ms),
            forall|b: int|
                0 <= b < chunk.members@.len() ==> #[trigger] chunk.members@[b] < mappings@.len(),
            registry@ == take_parts(before, ms, chunk@, raw@, now, k as nat),
            before.consistent() ==> registry@.consistent(),
        decreases chunk.members@.len() - k,
    {
        let i: usize = chunk.members[k];
        assert(ms[i as int] == mappings@[i as int]@);
        assert(chunk@.members[k as int] == i);
        take_member_part(registry, &mappings[i], chunk, raw, now);
        k = k + 1;
    }
}

/// Set the quality of all tags that a request is made for.
pub fn mark_members(
    registry: &mut TagRegistry,
    mappings: &Vec<TagMapping>,
    members: &Vec<usize>,
    quality: &TagQuality,
    now: Timestamp,
)
    requires
        forall|b: int| 0 <= b < members@.len() ==> #[trigger] members@[b] < mappings@.len(),
    ensures
        final(registry)@ == mark(
            old(registry)@,
            mapping_views(mappings@),
            indices(members@),
            quality@,
            now,
            members@.len(),
        ),
        old(registry)@.consistent() ==> final(registry)@.consistent(),
{
    let ghost before = registry@;
    let ghost ms = mapping_views(mappings@);
    let mut k: usize = 0;
    while k < members.len()
        invariant
            k <= members@.len(),
            ms == mapping_views(mappings@),
            before == old(registry)@,
            forall|b: int| 0 <= b < members@.len() ==> #[trigger] members@[b] < mappings@.len(),
            registry@ == mark(before, ms, indices(members@), quality@, now, k as nat),
            before.consistent() ==> registry@.consistent(),
        decreases members@.len() - k,
    {
        let i: usize = members[k];
        assert(ms[i as int] == mappings@[i as int]@);
        assert(indices(members@)[k as int] == i);
        let _ = registry.set_tag_quality_at(mappings[i].tag_id.as_str(), quality.clone(), now);
        k = k + 1;
    }
}

} // verus!
