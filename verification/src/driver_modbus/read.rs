//! Modbus reads: which requests a cycle makes, and what their answers do to the tags.

use crate::core_model::registry::{RegistryView, TagRegistry};
use crate::core_model::tag_value::{
    reordered, TagDataType, TagQuality, TagQualityView, WordOrder,
};
use crate::driver_common;
use crate::driver_common::plan::{
    chunk_views, class_plan, indices, plan_class, plan_respects_maximum,
    small_maximum_splits_class, Chunk, ChunkView,
};
use crate::driver_common::words::{bytes_of, registers_to_bytes};
use crate::driver_modbus::codec::{bit_of, decode_bytes_to_tagvalue, decoded};
use crate::driver_modbus::mapping::{mapping_views, ModbusMapping, ModbusMappingView};
use crate::driver_modbus::validate::{mapping_spans, spans_of, MAX_ADDRESS};
use crate::time::Timestamp;
use vstd::arithmetic::power2::{
    lemma2_to64, lemma_pow2_strictly_increases, lemma_pow2_unfold, pow2,
};
use vstd::prelude::*;
use vstd::string::*;

verus! {

/// Registers that one read request may ask for at most.
pub const MAX_REGISTERS: u32 = 125;

/// Coils or discrete inputs that one read request may ask for at most.
pub const MAX_COILS: u32 = 2000;

/// The read requests of a cycle: coils, discrete inputs, holding registers and input registers,
/// in this order.
pub open spec fn read_plan(ms: Seq<ModbusMappingView>) -> Seq<ChunkView> {
    let spans = mapping_spans(ms);
    let limit = MAX_ADDRESS as int;
    class_plan(spans, 0, limit, MAX_COILS as int) + class_plan(spans, 1, limit, MAX_COILS as int)
        + class_plan(spans, 2, limit, MAX_REGISTERS as int) + class_plan(
        spans,
        3,
        limit,
        MAX_REGISTERS as int,
    )
}

/// The read requests of a cycle.
pub fn plan_reads(mappings: &Vec<ModbusMapping>) -> (r: Vec<Chunk>)
    ensures
        chunk_views(r@) == read_plan(mapping_views(mappings@)),
{
    let spans = spans_of(mappings);
    let mut plan: Vec<Chunk> = Vec::new();
    let ghost s = spans@;
    let ghost limit = MAX_ADDRESS as int;
    proof {
        small_maximum_splits_class(s, 0, limit, MAX_COILS as int);
        small_maximum_splits_class(s, 1, limit, MAX_COILS as int);
        small_maximum_splits_class(s, 2, limit, MAX_REGISTERS as int);
        small_maximum_splits_class(s, 3, limit, MAX_REGISTERS as int);
    }
    plan_class(&spans, 0, MAX_ADDRESS, MAX_COILS, &mut plan);
    assert(chunk_views(plan@) =~= class_plan(s, 0, limit, MAX_COILS as int));
    plan_class(&spans, 1, MAX_ADDRESS, MAX_COILS, &mut plan);
    plan_class(&spans, 2, MAX_ADDRESS, MAX_REGISTERS, &mut plan);
    plan_class(&spans, 3, MAX_ADDRESS, MAX_REGISTERS, &mut plan);
    plan
}

/// Every request of the plan is made on behalf of mappings of its function, and asks for no more
/// than the protocol allows.
pub proof fn read_plan_is_sound(ms: Seq<ModbusMappingView>, p: int)
    requires
        0 <= p < read_plan(ms).len(),
    ensures
        ({
            let c = read_plan(ms)[p];
            &&& c.class < 4
            &&& 0 <= c.start <= MAX_ADDRESS
            &&& 1 <= c.len <= (if c.class < 2 {
                MAX_COILS
            } else {
                MAX_REGISTERS
            })
            &&& forall|b: int|
                0 <= b < c.members.len() ==> 0 <= #[trigger] c.members[b] < ms.len()
                    && mapping_spans(ms)[c.members[b]].class == c.class
        }),
{
    let spans = mapping_spans(ms);
    let limit = MAX_ADDRESS as int;
    let p0 = class_plan(spans, 0, limit, MAX_COILS as int);
    let p1 = class_plan(spans, 1, limit, MAX_COILS as int);
    let p2 = class_plan(spans, 2, limit, MAX_REGISTERS as int);
    let p3 = class_plan(spans, 3, limit, MAX_REGISTERS as int);
    let n0 = p0.len() as int;
    let n1 = n0 + p1.len();
    let n2 = n1 + p2.len();
    if p < n0 {
        plan_respects_maximum(spans, 0, limit, MAX_COILS as int, p);
        assert(read_plan(ms)[p] == p0[p]);
    } else if p < n1 {
        plan_respects_maximum(spans, 1, limit, MAX_COILS as int, p - n0);
        assert(read_plan(ms)[p] == p1[p - n0]);
    } else if p < n2 {
        plan_respects_maximum(spans, 2, limit, MAX_REGISTERS as int, p - n1);
        assert(read_plan(ms)[p] == p2[p - n1]);
    } else {
        plan_respects_maximum(spans, 3, limit, MAX_REGISTERS as int, p - n2);
        assert(read_plan(ms)[p] == p3[p - n2]);
    }
}

// ---------------------------------------------------------------------------
// Bits as words
// ---------------------------------------------------------------------------

/// The number whose binary digits are the next `n` bits, the first one being the lowest; bits
/// after the last one count as zero.
pub open spec fn bits_number(bits: Seq<bool>, from: int, n: nat) -> int
    decreases n,
{
    if n == 0 {
        0
    } else {
        (if from < bits.len() && bits[from] {
            1int
        } else {
            0int
        }) + 2 * bits_number(bits, from + 1, (n - 1) as nat)
    }
}

/// Bits as words of sixteen.
pub open spec fn packed(bits: Seq<bool>) -> Seq<u16> {
    Seq::new(
        ((bits.len() + 15) / 16) as nat,
        |w: int| bits_number(bits, 16 * w, 16) as u16,
    )
}

proof fn bits_number_bound(bits: Seq<bool>, from: int, n: nat)
    ensures
        0 <= bits_number(bits, from, n) < pow2(n),
    decreases n,
{
    lemma2_to64();
    if n > 0 {
        bits_number_bound(bits, from + 1, (n - 1) as nat);
        lemma_pow2_unfold(n);
    }
}

proof fn bits_number_fits(bits: Seq<bool>, from: int, n: nat)
    requires
        n <= 16,
    ensures
        0 <= bits_number(bits, from, n) <= 0xFFFF,
{
    bits_number_bound(bits, from, n);
    lemma2_to64();
    if n < 16 {
        lemma_pow2_strictly_increases(n, 16);
    }
}

fn pack_word(bits: &[bool], from: usize) -> (r: u16)
    ensures
        r == bits_number(bits@, from as int, 16),
{
    let mut w: u32 = 0;
    let mut b: usize = 16;
    while 0 < b
        invariant
            b <= 16,
            w == bits_number(bits@, from + b, (16 - b) as nat),
        decreases b,
    {
        let k: usize = b - 1;
        let set = from < bits.len() && k < bits.len() - from && bits[from + k];
        proof {
            bits_number_fits(bits@, from + b, (16 - b) as nat);
            assert((from + b) == (from + k) + 1);
        }
        w = 2 * w + if set {
            1
        } else {
            0
        };
        b = k;
    }
    proof {
        bits_number_fits(bits@, from as int, 16);
    }
    w as u16
}

/// Bits as words of sixteen.
pub fn pack_bits(bits: &[bool]) -> (r: Vec<u16>)
    ensures
        r@ == packed(bits@),
{
    let mut words: Vec<u16> = Vec::new();
    let mut i: usize = 0;
    while i < bits.len()
        invariant
            words@.len() <= packed(bits@).len(),
            i < bits@.len() ==> i == 16 * words@.len(),
            i >= bits@.len() ==> words@.len() == packed(bits@).len(),
            forall|k: int| 0 <= k < words@.len() ==> #[trigger] words@[k] == packed(bits@)[k],
        decreases bits@.len() - i,
    {
        words.push(pack_word(bits, i));
        if bits.len() - i <= 16 {
            i = bits.len();
        } else {
            i = i + 16;
        }
    }
    assert(words@ =~= packed(bits@));
    words
}

proof fn bits_number_has_its_bits(bits: Seq<bool>, from: int, n: nat, k: int)
    requires
        0 <= from,
        0 <= k < n <= 16,
        from + k < bits.len(),
    ensures
        bit_of(bits_number(bits, from, n) as u16, k as u8) == bits[from + k],
    decreases n,
{
    bits_number_fits(bits, from, n);
    bits_number_fits(bits, from + 1, (n - 1) as nat);
    let rest = bits_number(bits, from + 1, (n - 1) as nat);
    let x = bits_number(bits, from, n) as u16;
    let y = rest as u16;
    let b: u16 = if bits[from] {
        1
    } else {
        0
    };
    assert(x == b + 2 * y);
    if k == 0 {
        assert((x >> 0u16) & 1 == x % 2) by (bit_vector);
    } else {
        bits_number_has_its_bits(bits, from + 1, (n - 1) as nat, k - 1);
        let j = k as u16;
        let i = (k - 1) as u16;
        assert((x >> j) & 1 == (y >> i) & 1) by (bit_vector)
            requires
                x == b + 2 * y,
                b <= 1,
                1 <= j < 16,
                i == j - 1,
        ;
    }
}

/// Bit `k` of a packed word is the bit `k` places after the one that the word starts with.
pub proof fn packed_word_has_its_bits(bits: Seq<bool>, w: int, k: int)
    requires
        0 <= w,
        0 <= k < 16,
        16 * w + k < bits.len(),
    ensures
        bit_of(packed(bits)[w], k as u8) == bits[16 * w + k],
{
    bits_number_has_its_bits(bits, 16 * w, 16, k);
}

// ---------------------------------------------------------------------------
// Answers
// ---------------------------------------------------------------------------

/// What a device answers to a read request: one register, coil or discrete input for each address
/// asked for.
#[derive(Debug)]
pub enum ReadData {
    /// Registers.
    Registers(Vec<u16>),
    /// Coils or discrete inputs.
    Bits(Vec<bool>),
}

/// What [`ReadData`] says.
#[verifier::ext_equal]
pub ghost enum ReadDataView {
    Registers(Seq<u16>),
    Bits(Seq<bool>),
}

impl View for ReadData {
    type V = ReadDataView;

    open spec fn view(&self) -> ReadDataView {
        match *self {
            ReadData::Registers(w) => ReadDataView::Registers(w@),
            ReadData::Bits(b) => ReadDataView::Bits(b@),
        }
    }
}

/// The bytes of the addresses from `from` to before `to`, counted from the first one asked for:
/// those of the registers in a byte order, or the bits packed into words of sixteen. None where
/// the answer does not reach that far.
pub open spec fn part_of(data: ReadDataView, order: WordOrder, from: int, to: int) -> Option<
    Seq<u8>,
> {
    match data {
        ReadDataView::Registers(words) => if to <= words.len() {
            Some(reordered(order, bytes_of(words.subrange(from, to))))
        } else {
            None
        },
        ReadDataView::Bits(bits) => if to <= bits.len() {
            Some(bytes_of(packed(bits.subrange(from, to))))
        } else {
            None
        },
    }
}

fn take_bytes(data: &ReadData, order: &WordOrder, from: usize, to: usize) -> (r: Option<Vec<u8>>)
    requires
        from <= to,
    ensures
        match r {
            Some(b) => part_of(data@, *order, from as int, to as int) == Some(b@),
            None => part_of(data@, *order, from as int, to as int) is None,
        },
{
    match data {
        ReadData::Registers(words) => {
            if to > words.len() {
                return None;
            }
            let part = vstd::slice::slice_subrange(words.as_slice(), from, to);
            Some(driver_common::apply_byte_order(registers_to_bytes(part), order))
        },
        ReadData::Bits(bits) => {
            if to > bits.len() {
                return None;
            }
            let part = vstd::slice::slice_subrange(bits.as_slice(), from, to);
            Some(registers_to_bytes(pack_bits(part).as_slice()))
        },
    }
}

/// First address that mapping `m` and request `c` have in common.
pub open spec fn common_start(m: ModbusMappingView, c: ChunkView) -> int {
    if m.address >= c.start {
        m.address as int
    } else {
        c.start
    }
}

/// First address after those that mapping `m` and request `c` have in common.
pub open spec fn common_end(m: ModbusMappingView, c: ChunkView) -> int {
    if m.address + m.quantity <= c.start + c.len {
        m.address + m.quantity
    } else {
        c.start + c.len
    }
}

/// The registry after a mapping took its part of the answer to a request.
///
/// A mapping that has no address in common with the request takes nothing. An answer that is too
/// short, and bytes that hold no value of the mapping's type, are a configuration error of the
/// tag.
pub open spec fn take_part(
    reg: RegistryView,
    m: ModbusMappingView,
    c: ChunkView,
    data: ReadDataView,
    now: Timestamp,
) -> RegistryView {
    let start = common_start(m, c);
    let end = common_end(m, c);
    if start >= end {
        reg
    } else {
        match part_of(data, m.byte_order, start - c.start, end - c.start) {
            None => reg.set_quality(m.tag_id, TagQualityView::ConfigError, now),
            Some(bytes) => if !reg.has_tag(m.tag_id) {
                reg.set_quality(m.tag_id, TagQualityView::CommLost, now)
            } else {
                match decoded(m.data_type, bytes, m.bit_offset) {
                    Ok(v) => reg.update(m.tag_id, v, TagQualityView::Good, now, now),
                    Err(_) => reg.set_quality(m.tag_id, TagQualityView::ConfigError, now),
                }
            },
        }
    }
}

/// The registry after the first `n` mappings of a request took their part of the answer.
pub open spec fn take_parts(
    reg: RegistryView,
    ms: Seq<ModbusMappingView>,
    c: ChunkView,
    data: ReadDataView,
    now: Timestamp,
    n: nat,
) -> RegistryView
    decreases n,
{
    if n == 0 {
        reg
    } else {
        take_part(
            take_parts(reg, ms, c, data, now, (n - 1) as nat),
            ms[c.members[n - 1]],
            c,
            data,
            now,
        )
    }
}

/// The registry after the quality of the first `n` mappings of a request was set.
pub open spec fn mark(
    reg: RegistryView,
    ms: Seq<ModbusMappingView>,
    members: Seq<int>,
    quality: TagQualityView,
    now: Timestamp,
    n: nat,
) -> RegistryView
    decreases n,
{
    if n == 0 {
        reg
    } else {
        mark(reg, ms, members, quality, now, (n - 1) as nat).set_quality(
            ms[members[n - 1]].tag_id,
            quality,
            now,
        )
    }
}

/// The bits of booleans can be taken out of words.
pub open spec fn bits_in_range(ms: Seq<ModbusMappingView>) -> bool {
    forall|i: int|
        0 <= i < ms.len() && (#[trigger] ms[i]).data_type == TagDataType::Bool
            ==> ms[i].bit_offset < 16
}

fn take_member_part(
    registry: &mut TagRegistry,
    m: &ModbusMapping,
    chunk: &Chunk,
    data: &ReadData,
    now: Timestamp,
)
    requires
        m@.data_type == TagDataType::Bool ==> m@.bit_offset < 16,
    ensures
        final(registry)@ == take_part(old(registry)@, m@, chunk@, data@, now),
        old(registry)@.consistent() ==> final(registry)@.consistent(),
{
    let map_start: u64 = m.address as u64;
    let map_end: u64 = m.address as u64 + m.quantity as u64;
    let chunk_start: u64 = chunk.start as u64;
    let chunk_end: u64 = chunk.start as u64 + chunk.len as u64;
    let start: u64 = if map_start >= chunk_start {
        map_start
    } else {
        chunk_start
    };
    let end: u64 = if map_end <= chunk_end {
        map_end
    } else {
        chunk_end
    };
    if start >= end {
        return ;
    }
    assert(end - chunk_start <= 0xFFFF);
    let from: usize = (start - chunk_start) as usize;
    let to: usize = (end - chunk_start) as usize;
    let bytes = match take_bytes(data, &m.byte_order, from, to) {
        Some(b) => b,
        None => {
            let _ = registry.set_tag_quality_at(m.tag_id.as_str(), TagQuality::ConfigError, now);
            return ;
        },
    };
    if registry.get_tag(m.tag_id.as_str()).is_err() {
        let _ = registry.set_tag_quality_at(m.tag_id.as_str(), TagQuality::CommLost, now);
        return ;
    }
    match decode_bytes_to_tagvalue(&m.data_type, bytes.as_slice(), &m.function, m.bit_offset) {
        Ok(v) => {
            let _ = registry.update_tag_value_at(
                m.tag_id.as_str(),
                v,
                TagQuality::Good,
                now,
                now,
            );
        },
        Err(_) => {
            let _ = registry.set_tag_quality_at(m.tag_id.as_str(), TagQuality::ConfigError, now);
        },
    }
}

/// Let every mapping of a request take its part of the answer.
pub fn take_answer(
    registry: &mut TagRegistry,
    mappings: &Vec<ModbusMapping>,
    chunk: &Chunk,
    data: &ReadData,
    now: Timestamp,
)
    requires
        bits_in_range(mapping_views(mappings@)),
        forall|b: int|
            0 <= b < chunk.members@.len() ==> #[trigger] chunk.members@[b] < mappings@.len(),
    ensures
        final(registry)@ == take_parts(
            old(registry)@,
            mapping_views(mappings@),
            chunk@,
            data@,
            now,
            chunk@.members.len(),
        ),
        old(registry)@.consistent() ==> final(registry)@.consistent(),
{
    let ghost before = registry@;
    let ghost ms = mapping_views(mappings@);
    let mut k: usize = 0;
    while k < chunk.members.len()
        invariant
            k <= chunk.members@.len(),
            ms == mapping_views(mappings@),
            before == old(registry)@,
            bits_in_range(ms),
            forall|b: int|
                0 <= b < chunk.members@.len() ==> #[trigger] chunk.members@[b] < mappings@.len(),
            registry@ == take_parts(before, ms, chunk@, data@, now, k as nat),
            before.consistent() ==> registry@.consistent(),
        decreases chunk.members@.len() - k,
    {
        let i: usize = chunk.members[k];
        assert(ms[i as int] == mappings@[i as int]@);
        assert(chunk@.members[k as int] == i);
        take_member_part(registry, &mappings[i], chunk, data, now);
        k = k + 1;
    }
}

/// Set the quality of all tags that a request is made for.
pub fn mark_members(
    registry: &mut TagRegistry,
    mappings: &Vec<ModbusMapping>,
    members: &Vec<usize>,
    quality: &TagQuality,
    now: Timestamp,
)
    requires
        forall|b: int| 0 <= b < members@.len() ==> #[trigger] members@[b] < mappings@.len(),
    ensures
        final(registry)@ == mark(
            old(registry)@,
            mapping_views(mappings@),
            indices(members@),
            quality@,
            now,
            members@.len(),
        ),
        old(registry)@.consistent() ==> final(registry)@.consistent(),
{
    let ghost before = registry@;
    let ghost ms = mapping_views(mappings@);
    let mut k: usize = 0;
    while k < members.len()
        invariant
            k <= members@.len(),
            ms == mapping_views(mappings@),
            before == old(registry)@,
            forall|b: int| 0 <= b < members@.len() ==> #[trigger] members@[b] < mappings@.len(),
            registry@ == mark(before, ms, indices(members@), quality@, now, k as nat),
            before.consistent() ==> registry@.consistent(),
        decreases members@.len() - k,
    {
        let i: usize = members[k];
        assert(ms[i as int] == mappings@[i as int]@);
        assert(indices(members@)[k as int] == i);
        let _ = registry.set_tag_quality_at(mappings[i].tag_id.as_str(), quality.clone(), now);
        k = k + 1;
    }
}

} // verus!
