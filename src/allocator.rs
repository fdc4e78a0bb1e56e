//! Bookkeeping of the shadow-memory allocator behind binary-only address
//! sanitization. Every 8 bytes of user memory map to one shadow byte. The
//! allocator decides addresses, recycles freed mappings and computes which
//! shadow bytes to write; mapping pages and writing shadow memory is left
//! to its caller, which receives plain descriptions of that work.
use vstd::prelude::*;
use crate::shadow_pages::{covered_addresses, ShadowPageSet};
use crate::allocation_map::{
    capture_backtrace, AllocationMap, AllocationMetadata, MetaView, allocation_entries,
};

verus! {


/// Limits and switches of the allocator.
#[derive(Debug, Clone, Copy)]
pub struct AsanOptions {
    /// The largest single request that is served.
    pub max_allocation: u64,
    /// The most memory, guard pages included, handed out between resets.
    pub max_total_allocation: u64,
    /// Whether a request above `max_allocation` aborts instead of failing.
    pub max_allocation_panics: bool,
    /// Whether allocation and release sites are recorded.
    pub enable_backtraces: bool,
}

/// The errors the allocator reports.
#[derive(Debug, Clone, Copy, PartialEq, Eq, Structural)]
pub enum AsanError {
    /// A pointer that the allocator never handed out was released.
    UnallocatedFree(u64),
    /// An allocation was released twice.
    DoubleFree(u64),
    /// An allocation (by mapping address) was never released.
    Leak(u64),
    OutOfBoundsRead(u64),
    OutOfBoundsWrite(u64),
    UseAfterFree(u64),
    StackUnderflow(u64),
    StackOverflow(u64),
}

/// A write of shadow memory: `full_len` bytes of `full_value` from `start`,
/// then one byte `tail` if there is one.
#[derive(Debug, Clone, Copy, PartialEq, Eq, Structural)]
pub struct ShadowFill {
    pub start: u64,
    pub full_len: u64,
    pub full_value: u8,
    pub tail: Option<u8>,
}

impl ShadowFill {
    /// The bytes written, from `start` on.
    pub open spec fn bytes(self) -> Seq<u8> {
        Seq::new(self.full_len as nat, |i: int| self.full_value) + match self.tail {
            Some(t) => seq![t],
            None => Seq::empty(),
        }
    }
}

/// The shadow write that marks `size` user bytes as invalid.
pub open spec fn poison_fill(start: u64, size: u64) -> ShadowFill {
    ShadowFill {
        start,
        full_len: size / 8,
        full_value: 0u8,
        tail: if size % 8 > 0 { Some(0u8) } else { None },
    }
}

/// The mask of the partial shadow byte for `rem` valid bytes (1 to 7).
pub open spec fn partial_mask(rem: u64) -> u8 {
    ((0xffu32 << (8 - rem) as u32) & 0xffu32) as u8
}

/// The shadow write that marks `size` user bytes as valid.
pub open spec fn unpoison_fill(start: u64, size: u64) -> ShadowFill {
    ShadowFill {
        start,
        full_len: size / 8,
        full_value: 0xffu8,
        tail: if size % 8 > 0 { Some(partial_mask((size % 8) as u64)) } else { None },
    }
}

/// Computes the shadow write that poisons `size` user bytes from the shadow address `start`.
pub fn poison(start: u64, size: u64) -> (r: ShadowFill)
    ensures
        r == poison_fill(start, size),
{
    let rem = size % 8;
    ShadowFill { start, full_len: size / 8, full_value: 0u8, tail: if rem > 0 { Some(0u8) } else { None } }
}

/// Computes the shadow write that unpoisons `size` user bytes from the shadow address `start`.
pub fn unpoison(start: u64, size: u64) -> (r: ShadowFill)
    ensures
        r == unpoison_fill(start, size),
{
    let rem = size % 8;
    let tail = if rem > 0 {
        Some(((0xffu32 << (8 - rem) as u32) & 0xffu32) as u8)
    } else {
        None
    };
    ShadowFill { start, full_len: size / 8, full_value: 0xffu8, tail }
}

/// The mask that keeps the part of `addr >> 3` that the shadow region covers.
pub open spec fn shadow_mask(bit: u64) -> u64 {
    ((1u64 << ((bit + 1) as u64)) - 1) as u64
}

/// The shadow address of `addr` for a shadow region at `1 << bit`.
pub open spec fn shadow_of(bit: u64, addr: u64) -> int {
    (1u64 << bit) + ((addr >> 3u64) & shadow_mask(bit))
}

proof fn lemma_shadow_fits(bit: u64, addr: u64)
    requires
        1 <= bit <= 61,
    ensures
        shadow_of(bit, addr) <= u64::MAX,
{
    let m = shadow_mask(bit);
    assert(((addr >> 3u64) & m) <= m) by (bit_vector);
    assert(1 <= bit <= 61 ==> (1u64 << bit) <= 0x2000_0000_0000_0000u64) by (bit_vector);
    assert(1 <= bit <= 61 ==> (1u64 << ((bit + 1) as u64)) <= 0x4000_0000_0000_0000u64)
        by (bit_vector);
    assert(1 <= bit <= 61 ==> (1u64 << ((bit + 1) as u64)) >= 1u64) by (bit_vector);
}

/// Eight consecutive bytes from an 8-aligned address share their shadow
/// byte, and the next eight bytes map to the next shadow byte, up to the
/// end of the part of the address space that the shadow region covers.
pub proof fn lemma_shadow_granule(bit: u64, a: u64, k: u64)
    requires
        1 <= bit <= 61,
        a % 8 == 0,
        k < 8,
        a <= u64::MAX - 8,
        ((a >> 3u64) & shadow_mask(bit)) < shadow_mask(bit),
    ensures
        shadow_of(bit, (a + k) as u64) == shadow_of(bit, a),
        shadow_of(bit, (a + 8) as u64) == shadow_of(bit, a) + 1,
{
    let m = shadow_mask(bit);
    assert(a % 8 == 0 ==> a & 7 == 0) by (bit_vector);
    assert((a & 7 == 0 && k < 8 && a <= 0xffff_ffff_ffff_fff7u64) ==> ((a + k) as u64
        >> 3u64) == (a >> 3u64)) by (bit_vector);
    assert((a & 7 == 0 && a <= 0xffff_ffff_ffff_fff7u64) ==> ((a + 8) as u64 >> 3u64) == (
    a >> 3u64) + 1) by (bit_vector);
    let x = a >> 3u64;
    assert(1 <= bit <= 61 ==> m == ((1u64 << ((bit + 1) as u64)) - 1) as u64);
    assert((1 <= bit <= 61 && (x & ((((1u64 << ((bit + 1) as u64)) - 1) as u64)))
        < ((((1u64 << ((bit + 1) as u64)) - 1) as u64))) ==> ((x + 1) as u64 & ((((1u64
        << ((bit + 1) as u64)) - 1) as u64))) == (x & ((((1u64 << ((bit + 1) as u64))
        - 1) as u64))) + 1) by (bit_vector);
    assert((a >> 3u64) <= 0x1fff_ffff_ffff_ffffu64) by (bit_vector);
}

/// `size` rounded up to whole pages, always adding at least one byte's page.
pub open spec fn round_up(size: int, page: int) -> int {
    ((size + page) / page) * page
}

proof fn lemma_page_add(a: int, b: int, p: int)
    requires
        0 < p,
        a % p == 0,
        b % p == 0,
    ensures
        (a + b) % p == 0,
{
    vstd::arithmetic::div_mod::lemma_add_mod_noop(a, b, p);
    vstd::arithmetic::div_mod::lemma_small_mod(0nat, p as nat);
}

proof fn lemma_round_up_aligned(size: int, page: int)
    requires
        0 <= size,
        0 < page,
    ensures
        round_up(size, page) % page == 0,
        mapping_size(size, page) % page == 0,
{
    vstd::arithmetic::div_mod::lemma_mod_multiples_basic((size + page) / page, page);
    vstd::arithmetic::mul::lemma_mul_is_commutative((size + page) / page, page);
    vstd::arithmetic::div_mod::lemma_mod_multiples_basic(2, page);
    vstd::arithmetic::mul::lemma_mul_is_commutative(2, page);
    lemma_page_add(round_up(size, page), 2 * page, page);
}

proof fn lemma_round_up_above(size: int, page: int)
    requires
        0 <= size,
        0 < page,
    ensures
        size < round_up(size, page) <= size + page,
{
    vstd::arithmetic::div_mod::lemma_fundamental_div_mod(size + page, page);
    vstd::arithmetic::mul::lemma_mul_is_commutative((size + page) / page, page);
}

/// The distance between two addresses.
pub open spec fn dist(a: u64, b: u64) -> int {
    if a >= b {
        a - b
    } else {
        b - a
    }
}

/// `m` is at least as good an answer to a lookup of `ptr` as `o`: an
/// allocation at the hint comes first; otherwise the nearer one, and among
/// equally near ones the lower one.
pub open spec fn closer_or_equal(m: MetaView, o: MetaView, ptr: u64, hint: u64) -> bool {
    if m.address == hint {
        true
    } else if o.address == hint {
        false
    } else {
        dist(ptr, m.address) < dist(ptr, o.address) || (dist(ptr, m.address) == dist(
            ptr,
            o.address,
        ) && m.address <= o.address)
    }
}

proof fn lemma_closer_refl(m: MetaView, ptr: u64, hint: u64)
    ensures
        closer_or_equal(m, m, ptr, hint),
{
}

proof fn lemma_closer_trans(a: MetaView, b: MetaView, c: MetaView, ptr: u64, hint: u64)
    requires
        !closer_or_equal(b, a, ptr, hint),
        closer_or_equal(b, c, ptr, hint),
    ensures
        closer_or_equal(a, c, ptr, hint),
{
}

fn closer_or_equal_exec(m: &AllocationMetadata, o: &AllocationMetadata, ptr: u64, hint: u64) -> (r: bool)
    ensures
        r == closer_or_equal(m.view_meta(), o.view_meta(), ptr, hint),
{
    if m.address == hint {
        return true;
    }
    if o.address == hint {
        return false;
    }
    let dm = if ptr >= m.address { ptr - m.address } else { m.address - ptr };
    let d_o = if ptr >= o.address { ptr - o.address } else { o.address - ptr };
    dm < d_o || (dm == d_o && m.address <= o.address)
}

/// `e` reports a live allocation of `t` as leaked.
pub open spec fn leak_in(t: Map<u64, MetaView>, e: AsanError) -> bool {
    exists|k: u64| t.contains_key(k) && !t[k].freed && e == AsanError::Leak(#[trigger] t[k].address)
}

/// `v` is the record of `t` that a lookup of `ptr` with hint `hint` answers.
pub open spec fn nearest_in(t: Map<u64, MetaView>, v: MetaView, ptr: u64, hint: u64) -> bool {
    &&& exists|k: u64| t.contains_key(k) && #[trigger] t[k] == v
    &&& forall|k2: u64| #[trigger] t.contains_key(k2) ==> closer_or_equal(v, t[k2], ptr, hint)
}

/// The shadow write `f` and the queue entry `q` come from resetting one
/// freed allocation of `a`: `f` poisons its user bytes and `q` is its record,
/// cleared.
pub open spec fn recycled_from(a: Allocator, f: ShadowFill, q: MetaView) -> bool {
    exists|k: u64|
        a.table().contains_key(k) && a.table()[k].freed && f == poison_fill(
            a.shadow(k),
            a.table()[k].size,
        ) && q == #[trigger] recycled(a.table()[k])
}

/// Some shadow write of `fills` poisons the user bytes of allocation `k` of `a`.
pub open spec fn poisons(fills: Seq<ShadowFill>, a: Allocator, k: u64) -> bool {
    exists|w: int| 0 <= w < fills.len() && #[trigger] fills[w] == poison_fill(a.shadow(k), a.table()[k].size)
}

/// The queue `q` holds, past the queue of `a`, the cleared record of allocation `k` of `a`.
pub open spec fn queued(q: Seq<MetaView>, a: Allocator, k: u64) -> bool {
    exists|w: int| a.queue().len() <= w < q.len() && #[trigger] q[w] == recycled(a.table()[k])
}

/// The ranges `gaps` lie inside `[lo, hi)` and hold every address there
/// that `mapped` does not.
pub open spec fn gaps_cover(gaps: Seq<(u64, u64)>, mapped: Set<u64>, lo: int, hi: int) -> bool {
    &&& forall|i: int| 0 <= i < gaps.len() ==> lo <= (#[trigger] gaps[i]).0 <= gaps[i].1 <= hi
    &&& forall|x: u64|
        lo <= x < hi && !mapped.contains(x) ==> exists|i: int|
            0 <= i < gaps.len() && (#[trigger] gaps[i]).0 <= x < gaps[i].1
}

/// The size recorded under `k`, or 0.
fn t0_size(m: &AllocationMap, k: u64) -> (r: u64)
    ensures
        allocation_entries(*m).contains_key(k) ==> r == allocation_entries(*m)[k].size,
{
    match m.get(k) {
        Some(v) => v.size,
        None => 0,
    }
}

/// The mapping size for a request of `size` bytes: whole pages and a guard
/// page on each side.
pub open spec fn mapping_size(size: int, page: int) -> int {
    round_up(size, page) + 2 * page
}

/// What an allocation request turned into.
#[derive(Debug)]
pub enum AllocStep {
    /// The request is above `max_allocation` and the options ask to abort.
    TooLarge,
    /// The request cannot be served: the caller gets a null pointer.
    Null,
    /// A fresh mapping of `len` bytes at `addr` is needed; report the result
    /// of mapping it with `complete_mapping`.
    NeedsMapping { addr: u64, len: u64 },
    /// The allocation is ready at `ptr`: map the shadow page ranges in
    /// `pages` (where shadow memory is mapped lazily), then write `unpoison`.
    Ready { ptr: u64, pages: Vec<(u64, u64)>, unpoison: ShadowFill },
}

/// A request that waits for its fresh mapping.
#[derive(Debug, Clone, Copy)]
pub struct PendingAllocation {
    pub size: u64,
    pub rounded: u64,
    pub is_malloc_zero: bool,
}

/// What releasing a pointer did.
#[derive(Debug)]
pub enum ReleaseOutcome {
    /// A null pointer that was never handed out: nothing to do.
    Ignored,
    /// The allocation is now freed: write `poison` to shadow memory.
    Poisoned(ShadowFill),
    /// The release is an error, reported with the pointer.
    Failed(AsanError),
}

/// The shadow work for a region of user memory.
#[derive(Debug)]
pub struct ShadowRegion {
    /// Shadow address of the start of the region.
    pub shadow_start: u64,
    /// Shadow bytes that the whole 8-byte groups of the region take.
    pub shadow_len: u64,
    /// Page range of shadow memory to map first, where it is mapped lazily.
    pub pages: Option<(u64, u64)>,
    /// The shadow write that unpoisons the region, when asked for.
    pub unpoison: Option<ShadowFill>,
}

/// Releasing a live allocation of `n` bytes poisons the shadow of its user
/// bytes from the shadow of its pointer on: ⌈n/8⌉ shadow bytes, all zero.
/// It leaves the allocation recorded as freed, so that releasing it again
/// is a double free.
pub proof fn lemma_release_cycle(t: Map<u64, MetaView>, ptr: u64, shadow_start: u64)
    requires
        t.contains_key(ptr),
        !t[ptr].freed,
    ensures
        after_release(t, ptr).contains_key(ptr),
        after_release(t, ptr)[ptr].freed,
        after_release(t, ptr)[ptr].size == t[ptr].size,
        poison_fill(shadow_start, t[ptr].size).start == shadow_start,
        poison_fill(shadow_start, t[ptr].size).bytes().len() == (t[ptr].size + 7) / 8,
        forall|i: int|
            0 <= i < poison_fill(shadow_start, t[ptr].size).bytes().len() ==> #[trigger] poison_fill(
                shadow_start,
                t[ptr].size,
            ).bytes()[i] == 0,
{
    let n = t[ptr].size;
    let f = poison_fill(shadow_start, n);
    assert(f.bytes().len() == (n + 7) / 8) by {
        if n % 8 > 0 {
            assert(n / 8 + 1 == (n + 7) / 8);
        } else {
            assert(n / 8 == (n + 7) / 8);
        }
    }
}

/// The allocation table after `ptr` was released.
pub open spec fn after_release(m: Map<u64, MetaView>, ptr: u64) -> Map<u64, MetaView> {
    m.insert(ptr, MetaView { freed: true, ..m[ptr] })
}

/// A record of the queue of mappings to recycle, once reset.
pub open spec fn recycled(v: MetaView) -> MetaView {
    MetaView { size: 0, freed: false, ..v }
}

/// The queue entry at `i` is the best fit for `size`: the smallest mapping
/// that is large enough, the latest queued among equal ones.
pub open spec fn best_fit(q: Seq<MetaView>, size: u64, i: int) -> bool {
    &&& 0 <= i < q.len()
    &&& q[i].actual_size >= size
    &&& forall|j: int|
        0 <= j < q.len() && q[j].actual_size >= size ==> q[i].actual_size < q[j].actual_size || (
        q[i].actual_size == q[j].actual_size && j <= i)
}

/// Whether some queued mapping is large enough for `size`.
pub open spec fn has_fit(q: Seq<MetaView>, size: u64) -> bool {
    exists|j: int| 0 <= j < q.len() && #[trigger] q[j].actual_size >= size
}

/// A shadow-memory allocator.
#[derive(Debug)]
pub struct Allocator {
    pub options: AsanOptions,
    pub page_size: u64,
    pub shadow_offset: u64,
    pub shadow_bit: u64,
    pub pre_allocated_shadow: bool,
    pub allocations: AllocationMap,
    pub allocation_queue: Vec<AllocationMetadata>,
    pub pending: Option<PendingAllocation>,
    pub largest_allocation: u64,
    pub total_allocation_size: u64,
    pub base_mapping_addr: u64,
    pub current_mapping_addr: u64,
    /// The shadow pages mapped so far, where shadow memory is mapped lazily.
    pub shadow_pages: ShadowPageSet,
}

impl Allocator {
    /// The allocation table, by user pointer.
    pub open spec fn table(&self) -> Map<u64, MetaView> {
        allocation_entries(self.allocations)
    }

    /// The queue of mappings to recycle.
    pub open spec fn queue(&self) -> Seq<MetaView> {
        self.allocation_queue@.map_values(|m: AllocationMetadata| m.view_meta())
    }

    /// The shadow address of `addr`.
    pub open spec fn shadow(&self, addr: u64) -> u64 {
        shadow_of(self.shadow_bit, addr) as u64
    }

    /// A record describes a page-aligned mapping of at least two pages that
    /// lies between the start of the mapped area and the mapping cursor.
    pub open spec fn mapping_ok(&self, v: MetaView) -> bool {
        &&& self.base_mapping_addr <= v.address
        &&& v.address + v.actual_size <= self.current_mapping_addr
        &&& v.address % self.page_size == 0
        &&& v.actual_size >= 2 * self.page_size
    }

    /// The allocator's invariant: a sane shadow layout and page size, and
    /// every record kept under the address just past its guard page.
    pub open spec fn wf(&self) -> bool {
        &&& 1 <= self.shadow_bit <= 61
        &&& self.shadow_offset == 1u64 << self.shadow_bit
        &&& 0 < self.page_size <= 0x1_0000_0000
        &&& self.base_mapping_addr <= self.current_mapping_addr
        &&& forall|k: u64| #[trigger]
            self.table().contains_key(k) ==> self.table()[k].address + self.page_size == k
        &&& forall|i: int|
            0 <= i < self.queue().len() ==> (#[trigger] self.queue()[i]).address + self.page_size
                <= u64::MAX
        &&& self.base_mapping_addr % self.page_size == 0
        &&& self.current_mapping_addr % self.page_size == 0
        &&& forall|k: u64| #[trigger] self.table().contains_key(k) ==> self.mapping_ok(self.table()[k])
        &&& forall|i: int| 0 <= i < self.queue().len() ==> self.mapping_ok(#[trigger] self.queue()[i])
        &&& forall|i: int, k: u64|
            0 <= i < self.queue().len() && #[trigger] self.table().contains_key(k) ==> (
            #[trigger] self.queue()[i]).address + self.page_size != k
        &&& forall|i: int, j: int|
            0 <= i < j < self.queue().len() ==> (#[trigger] self.queue()[i]).address != (
            #[trigger] self.queue()[j]).address
        &&& self.pending matches Some(p) ==> p.rounded == mapping_size(
            p.size as int,
            self.page_size as int,
        )
    }

    /// Creates an allocator for the given page size and shadow bit: the
    /// shadow region starts at `1 << shadow_bit`, and allocations are
    /// mapped from `3 << shadow_bit` on. `pre_allocated_shadow` tells
    /// whether the whole shadow region is already mapped.
    pub fn new(options: AsanOptions, page_size: u64, shadow_bit: u64, pre_allocated_shadow: bool) -> (r: Allocator)
        requires
            1 <= shadow_bit <= 61,
            0 < page_size <= 0x1_0000_0000,
            (1u64 << shadow_bit) % page_size == 0,
        ensures
            r.wf(),
            r.table().dom() == Set::<u64>::empty(),
            r.queue().len() == 0,
            r.pending is None,
            r.total_allocation_size == 0,
            r.shadow_bit == shadow_bit,
            r.page_size == page_size,
            r.base_mapping_addr == 3 * (1u64 << shadow_bit),
            r.current_mapping_addr == r.base_mapping_addr,
            r.options == options,
            r.pre_allocated_shadow == pre_allocated_shadow,
            r.largest_allocation == 0,
    {
        assert(1 <= shadow_bit <= 61 ==> (1u64 << shadow_bit) <= 0x2000_0000_0000_0000u64) by (bit_vector);
        let addr: u64 = 1u64 << shadow_bit;
        proof {
            lemma_page_add(addr as int, addr as int, page_size as int);
            lemma_page_add((addr + addr) as int, addr as int, page_size as int);
        }
        let r = Allocator {
            options,
            page_size,
            shadow_offset: addr,
            shadow_bit,
            pre_allocated_shadow,
            allocations: AllocationMap::new(),
            allocation_queue: Vec::new(),
            pending: None,
            largest_allocation: 0,
            total_allocation_size: 0,
            base_mapping_addr: addr + addr + addr,
            current_mapping_addr: addr + addr + addr,
            shadow_pages: ShadowPageSet::new(),
        };
        assert(r.queue() =~= Seq::<MetaView>::empty());
        assert(forall|k: u64| !r.table().contains_key(k));
        r
    }

    /// The shadow bit this allocator uses.
    pub fn shadow_bit(&self) -> (r: u32)
        requires
            self.wf(),
        ensures
            r == self.shadow_bit,
    {
        self.shadow_bit as u32
    }

    /// Maps an address to its shadow address.
    pub fn map_to_shadow(&self, start: u64) -> (r: u64)
        requires
            1 <= self.shadow_bit <= 61,
            self.shadow_offset == 1u64 << self.shadow_bit,
        ensures
            r as int == shadow_of(self.shadow_bit, start),
    {
        proof {
            lemma_shadow_fits(self.shadow_bit, start);
        }
        let b = self.shadow_bit;
        assert(1 <= b <= 61 ==> (1u64 << ((b + 1) as u64)) >= 1u64) by (bit_vector);
        let mask: u64 = (1u64 << (b + 1)) - 1;
        self.shadow_offset + ((start >> 3u64) & mask)
    }

    /// Whether `ptr` lies in the memory this allocator maps.
    pub fn is_managed(&self, ptr: u64) -> (r: bool)
        ensures
            r == (self.base_mapping_addr <= ptr < self.current_mapping_addr),
    {
        self.base_mapping_addr <= ptr && ptr < self.current_mapping_addr
    }

    /// The requested size as served: a zero-sized request counts as 16 bytes.
    pub open spec fn served_size(size: u64) -> u64 {
        if size == 0 {
            16
        } else {
            size
        }
    }

    /// Everything but the allocation table, the queue, the pending request,
    /// the mapping cursor and the counters is as in `old`.
    pub open spec fn same_layout(&self, old: Allocator) -> bool {
        &&& self.options == old.options
        &&& self.page_size == old.page_size
        &&& self.shadow_bit == old.shadow_bit
        &&& self.shadow_offset == old.shadow_offset
        &&& self.pre_allocated_shadow == old.pre_allocated_shadow
        &&& self.base_mapping_addr == old.base_mapping_addr
    }

    /// Serves a request of `size` bytes. A zero-sized request is served as
    /// 16 bytes. Requests above `max_allocation`, requests whose mapping
    /// would overflow, and requests that would take the memory handed out
    /// past `max_total_allocation` fail. A freed mapping that is large
    /// enough is recycled; otherwise a fresh mapping is asked for.
    pub fn allocate(&mut self, size: u64, _alignment: u64) -> (r: AllocStep)
        requires
            old(self).wf(),
            old(self).pending is None,
        ensures
            final(self).wf(),
            final(self).same_layout(*old(self)),
            Self::served_size(size) > old(self).options.max_allocation ==> (r is TooLarge
                <==> old(self).options.max_allocation_panics) && (r is Null
                <==> !old(self).options.max_allocation_panics),
            r is TooLarge ==> Self::served_size(size) > old(self).options.max_allocation,
            Self::served_size(size) <= old(self).options.max_allocation && mapping_size(
                Self::served_size(size) as int,
                old(self).page_size as int,
            ) + old(self).total_allocation_size > old(self).options.max_total_allocation ==> r is Null,
            r is TooLarge || r is Null ==> final(self).total_allocation_size
                == old(self).total_allocation_size && final(self).largest_allocation
                == old(self).largest_allocation,
            r is TooLarge || r is Null ==> final(self).table() == old(self).table()
                && final(self).queue() == old(self).queue() && final(self).pending is None
                && final(self).current_mapping_addr == old(self).current_mapping_addr,
            Self::served_size(size) <= old(self).options.max_allocation && mapping_size(
                Self::served_size(size) as int,
                old(self).page_size as int,
            ) + old(self).total_allocation_size <= old(self).options.max_total_allocation ==> (
            r is Ready || r is NeedsMapping),
            r is Ready || r is NeedsMapping ==> final(self).total_allocation_size
                == old(self).total_allocation_size + mapping_size(
                Self::served_size(size) as int,
                old(self).page_size as int,
            ),
            r matches AllocStep::NeedsMapping { addr, len } ==> {
                &&& addr == old(self).current_mapping_addr
                &&& len == mapping_size(Self::served_size(size) as int, old(self).page_size as int)
                &&& !has_fit(old(self).queue(), len)
                &&& final(self).pending == Some(
                    PendingAllocation {
                        size: Self::served_size(size),
                        rounded: len,
                        is_malloc_zero: size == 0,
                    },
                )
                &&& final(self).table() == old(self).table()
                &&& final(self).queue() == old(self).queue()
                &&& final(self).current_mapping_addr == old(self).current_mapping_addr
            },
            r matches AllocStep::Ready { ptr, pages, unpoison } ==> exists|i: int|
                #![trigger old(self).queue()[i]]
                best_fit(
                    old(self).queue(),
                    mapping_size(Self::served_size(size) as int, old(self).page_size as int) as u64,
                    i,
                ) && ptr == old(self).queue()[i].address + old(self).page_size && final(self).table() == old(self).table().insert(
                    ptr,
                    MetaView {
                        address: old(self).queue()[i].address,
                        size: Self::served_size(size),
                        actual_size: old(self).queue()[i].actual_size,
                        freed: false,
                        is_malloc_zero: size == 0,
                    },
                ) && final(self).queue() == old(self).queue().remove(i) && pages@.len() == 0
                    && ptr % old(self).page_size == 0 && old(self).base_mapping_addr <= ptr
                    < old(self).current_mapping_addr && !old(self).table().contains_key(ptr)
                    && unpoison == unpoison_fill(final(self).shadow(ptr), Self::served_size(size))
                    && final(self).pending is None && final(self).current_mapping_addr == old(self).current_mapping_addr,
    {
        let is_malloc_zero = size == 0;
        let size: u64 = if size == 0 { 16 } else { size };
        if size > self.options.max_allocation {
            if self.options.max_allocation_panics {
                return AllocStep::TooLarge;
            }
            return AllocStep::Null;
        }
        let page = self.page_size;
        let rounded = match self.round_up_to_page(size) {
            None => {
                proof {
                    lemma_round_up_above(size as int, page as int);
                }
                return AllocStep::Null;
            },
            Some(v) => v,
        };
        if rounded > u64::MAX - 2 * page {
            return AllocStep::Null;
        }
        let rounded = rounded + 2 * page;
        if self.total_allocation_size > self.options.max_total_allocation || rounded
            > self.options.max_total_allocation - self.total_allocation_size {
            return AllocStep::Null;
        }
        self.total_allocation_size = self.total_allocation_size + rounded;
        match self.find_smallest_fit(rounded) {
            Some(mut metadata) => {
                let ghost i = choose|i: int|
                    best_fit(old(self).queue(), rounded, i) && #[trigger] old(self).queue()[i]
                        == metadata.view_meta() && self.queue() == old(self).queue().remove(i);
                assert(old(self).queue()[i].address + page <= u64::MAX);
                proof {
                    assert(old(self).mapping_ok(old(self).queue()[i]));
                    vstd::arithmetic::div_mod::lemma_mod_self_0(page as int);
                    lemma_page_add(old(self).queue()[i].address as int, page as int, page as int);
                    assert forall|j: int| 0 <= j < self.queue().len() implies (#[trigger] self.queue()[j]).address
                        + self.page_size <= u64::MAX && self.mapping_ok(self.queue()[j]) by {
                        if j < i {
                            assert(self.queue()[j] == old(self).queue()[j]);
                        } else {
                            assert(self.queue()[j] == old(self).queue()[j + 1]);
                        }
                    }
                }
                metadata.is_malloc_zero = is_malloc_zero;
                metadata.size = size;
                metadata.freed = false;
                if self.options.enable_backtraces {
                    metadata.allocation_site_backtrace = Some(capture_backtrace());
                }
                if metadata.actual_size > self.largest_allocation {
                    self.largest_allocation = metadata.actual_size;
                }
                let ptr = metadata.address + page;
                assert(self.allocations == old(self).allocations);
                assert(self.table() == old(self).table());
                let fill = unpoison(self.map_to_shadow(ptr), size);
                let ghost mv = metadata.view_meta();
                let _ = self.allocations.insert(ptr, metadata);
                proof {
                    assert forall|k: u64| #[trigger] self.table().contains_key(k) implies self.table()[k].address
                        + self.page_size == k && self.mapping_ok(self.table()[k]) by {
                        if k != ptr {
                            assert(old(self).table().contains_key(k));
                        }
                    }
                    assert(!old(self).table().contains_key(ptr)) by {
                        if old(self).table().contains_key(ptr) {
                            assert(old(self).queue()[i].address + old(self).page_size != ptr);
                        }
                    }
                    assert forall|a: int, k: u64|
                        0 <= a < self.queue().len() && #[trigger] self.table().contains_key(k) implies (
                        #[trigger] self.queue()[a]).address + self.page_size != k by {
                        let oa = if a < i { a } else { a + 1 };
                        assert(self.queue()[a] == old(self).queue()[oa]);
                        if k != ptr {
                            assert(old(self).table().contains_key(k));
                        } else {
                            assert(old(self).queue()[oa].address != old(self).queue()[i].address);
                        }
                    }
                    assert forall|a: int, b: int| 0 <= a < b < self.queue().len() implies (
                        #[trigger] self.queue()[a]).address != (#[trigger] self.queue()[b]).address by {
                        let oa = if a < i { a } else { a + 1 };
                        let ob = if b < i { b } else { b + 1 };
                        assert(self.queue()[a] == old(self).queue()[oa]);
                        assert(self.queue()[b] == old(self).queue()[ob]);
                    }
                }
                AllocStep::Ready { ptr, pages: Vec::new(), unpoison: fill }
            },
            None => {
                self.pending = Some(PendingAllocation { size, rounded, is_malloc_zero });
                assert(self.table() == old(self).table());
                AllocStep::NeedsMapping { addr: self.current_mapping_addr, len: rounded }
            },
        }
    }

    /// The shadow page range of the region `[start, end)` fits in the address space.
    pub open spec fn region_pages_fit(&self, start: u64, end: u64) -> bool {
        &&& (end - start) / 8 + self.page_size <= u64::MAX
        &&& (self.shadow(start) / self.page_size) * self.page_size + round_up(
            ((end - start) / 8) as int,
            self.page_size as int,
        ) + self.page_size <= u64::MAX
    }

    /// The shadow work for the user region `[start, end)`: where shadow
    /// memory is mapped lazily, the page range of shadow memory that covers
    /// the region (from the page holding the shadow of `start`, over the
    /// region's shadow rounded up to pages, plus one page); and, when
    /// `unpoison` is set, the write that marks the region valid. `None`
    /// where the page range would overflow.
    pub fn map_shadow_for_region(&self, start: u64, end: u64, unpoison_region: bool) -> (r: Option<ShadowRegion>)
        requires
            self.wf(),
            start <= end,
        ensures
            r matches Some(reg) ==> {
                &&& reg.shadow_start == self.shadow(start)
                &&& reg.shadow_len == (end - start) / 8
                &&& (self.pre_allocated_shadow <==> reg.pages is None)
                &&& (reg.pages matches Some((lo, hi)) ==> lo == (reg.shadow_start / self.page_size) * self.page_size && lo <= reg.shadow_start && lo
                    % self.page_size == 0 && hi == lo + round_up(
                    ((end - start) / 8) as int,
                    self.page_size as int,
                ) + self.page_size)
                &&& (unpoison_region ==> reg.unpoison == Some(
                    unpoison_fill(self.shadow(start), (end - start) as u64),
                ))
                &&& (!unpoison_region ==> reg.unpoison is None)
            },
            r is None <==> !self.pre_allocated_shadow && !self.region_pages_fit(start, end),
    {
        let shadow_start = self.map_to_shadow(start);
        let len = end - start;
        let pages = if self.pre_allocated_shadow {
            None
        } else {
            let lo = self.round_down_to_page(shadow_start);
            let up = match self.round_up_to_page(len / 8) {
                None => { return None; },
                Some(v) => v,
            };
            if up > u64::MAX - self.page_size || lo > u64::MAX - (up + self.page_size) {
                return None;
            }
            Some((lo, lo + (up + self.page_size)))
        };
        let fill = if unpoison_region { Some(unpoison(shadow_start, len)) } else { None };
        Some(ShadowRegion { shadow_start, shadow_len: len / 8, pages, unpoison: fill })
    }

    /// Finishes a request that needed a fresh mapping: `mapped` tells
    /// whether the mapping at the cursor was obtained. On success the
    /// cursor moves past the mapping and the allocation is ready one guard
    /// page into it; otherwise the request fails.
    pub fn complete_mapping(&mut self, mapped: bool) -> (r: AllocStep)
        requires
            old(self).wf(),
            old(self).pending is Some,
        ensures
            final(self).wf(),
            final(self).same_layout(*old(self)),
            final(self).pending is None,
            final(self).queue() == old(self).queue(),
            final(self).total_allocation_size == old(self).total_allocation_size,
            r is Null || r is Ready,
            !mapped ==> r is Null,
            r is Null ==> final(self).table() == old(self).table()
                && final(self).current_mapping_addr == old(self).current_mapping_addr,
            r matches AllocStep::Ready { ptr, pages, unpoison } ==> {
                let p = old(self).pending.unwrap();
                &&& ptr == old(self).current_mapping_addr + old(self).page_size
                &&& ptr % old(self).page_size == 0
                &&& old(self).base_mapping_addr <= ptr < final(self).current_mapping_addr
                &&& !old(self).table().contains_key(ptr)
                &&& final(self).current_mapping_addr == old(self).current_mapping_addr + p.rounded
                &&& final(self).table() == old(self).table().insert(
                    ptr,
                    MetaView {
                        address: old(self).current_mapping_addr,
                        size: p.size,
                        actual_size: p.rounded,
                        freed: false,
                        is_malloc_zero: p.is_malloc_zero,
                    },
                )
                &&& unpoison == unpoison_fill(final(self).shadow(ptr), p.size)
                &&& (old(self).pre_allocated_shadow ==> pages@.len() == 0)
                &&& (!old(self).pre_allocated_shadow ==> gaps_cover(
                    pages@,
                    covered_addresses(old(self).shadow_pages),
                    old(self).shadow_page_lo(old(self).current_mapping_addr),
                    old(self).shadow_page_lo(old(self).current_mapping_addr) + round_up(
                        (p.rounded / 8) as int,
                        old(self).page_size as int,
                    ) + old(self).page_size,
                ))
            },
            mapped && old(self).current_mapping_addr + old(self).pending.unwrap().rounded
                <= u64::MAX && (old(self).pre_allocated_shadow || old(self).region_pages_fit(
                old(self).current_mapping_addr,
                (old(self).current_mapping_addr + old(self).pending.unwrap().rounded) as u64,
            )) ==> r is Ready,
    {
        let p = match self.pending {
            Some(p) => p,
            None => { return AllocStep::Null; },
        };
        self.pending = None;
        assert(self.table() == old(self).table());
        assert(self.queue() == old(self).queue());
        if !mapped || self.current_mapping_addr > u64::MAX - p.rounded {
            return AllocStep::Null;
        }
        let mapping = self.current_mapping_addr;
        let region = match self.map_shadow_for_region(mapping, mapping + p.rounded, false) {
            None => { return AllocStep::Null; },
            Some(reg) => reg,
        };
        proof {
            lemma_round_up_above(p.size as int, self.page_size as int);
            lemma_round_up_aligned(p.size as int, self.page_size as int);
            lemma_page_add(mapping as int, p.rounded as int, self.page_size as int);
            vstd::arithmetic::div_mod::lemma_mod_self_0(self.page_size as int);
            lemma_page_add(mapping as int, self.page_size as int, self.page_size as int);
        }
        self.current_mapping_addr = mapping + p.rounded;
        proof {
            assert forall|j: int| 0 <= j < self.queue().len() implies self.mapping_ok(#[trigger] self.queue()[j]) by {
                assert(old(self).mapping_ok(old(self).queue()[j]));
            }
            assert forall|k: u64| #[trigger] self.table().contains_key(k) implies self.mapping_ok(self.table()[k]) by {
                assert(old(self).mapping_ok(old(self).table()[k]));
            }
        }
        let ptr = mapping + self.page_size;
        let mut metadata = AllocationMetadata {
            address: mapping,
            size: p.size,
            actual_size: p.rounded,
            allocation_site_backtrace: None,
            release_site_backtrace: None,
            freed: false,
            is_malloc_zero: p.is_malloc_zero,
        };
        if self.options.enable_backtraces {
            metadata.allocation_site_backtrace = Some(capture_backtrace());
        }
        if p.rounded > self.largest_allocation {
            self.largest_allocation = p.rounded;
        }
        let fill = unpoison(self.map_to_shadow(ptr), p.size);
        let _ = self.allocations.insert(ptr, metadata);
        proof {
            assert forall|k: u64| #[trigger] self.table().contains_key(k) implies self.table()[k].address
                + self.page_size == k by {
                if k != ptr {
                    assert(old(self).table().contains_key(k));
                }
            }
            assert(!old(self).table().contains_key(ptr)) by {
                if old(self).table().contains_key(ptr) {
                    assert(old(self).mapping_ok(old(self).table()[ptr]));
                }
            }
            assert forall|a: int, k: u64|
                0 <= a < self.queue().len() && #[trigger] self.table().contains_key(k) implies (
                #[trigger] self.queue()[a]).address + self.page_size != k by {
                assert(old(self).mapping_ok(old(self).queue()[a]));
                if k != ptr {
                    assert(old(self).table().contains_key(k));
                }
            }
        }
        let pages = match region.pages {
            Some((lo, hi)) => self.claim_shadow_pages(lo, hi),
            None => Vec::new(),
        };
        AllocStep::Ready { ptr, pages, unpoison: fill }
    }

    /// Whether a mapped region that starts at `start` with page protection
    /// `protection` is to be unpoisoned: it must be readable or writable
    /// (some bit of `read_write`), and it must not be the pre-mapped shadow
    /// region itself.
    pub fn should_unpoison_range(&self, protection: u32, read_write: u32, start: u64) -> (r: bool)
        ensures
            r == ((protection & read_write) != 0 && !(self.pre_allocated_shadow && start
                == self.shadow_offset)),
    {
        (protection & read_write) != 0 && !(self.pre_allocated_shadow && start == self.shadow_offset)
    }

    /// The first address of the shadow page that holds the shadow of `addr`.
    pub open spec fn shadow_page_lo(&self, addr: u64) -> int {
        (self.shadow(addr) / self.page_size) * self.page_size
    }

    /// Records the shadow pages `[lo, hi)` as mapped and returns the ranges
    /// among them that were not mapped yet, which the caller maps.
    pub fn claim_shadow_pages(&mut self, lo: u64, hi: u64) -> (r: Vec<(u64, u64)>)
        ensures
            gaps_cover(r@, covered_addresses(old(self).shadow_pages), lo as int, hi as int),
            forall|x: u64|
                #[trigger] covered_addresses(final(self).shadow_pages).contains(x) <==> covered_addresses(
                    old(self).shadow_pages,
                ).contains(x) || lo <= x < hi,
            final(self).allocations == old(self).allocations,
            final(self).allocation_queue@ == old(self).allocation_queue@,
            final(self).pending == old(self).pending,
            final(self).same_layout(*old(self)),
            final(self).current_mapping_addr == old(self).current_mapping_addr,
            final(self).total_allocation_size == old(self).total_allocation_size,
            final(self).largest_allocation == old(self).largest_allocation,
    {
        let gaps = self.shadow_pages.gaps(lo, hi);
        if lo < hi {
            self.shadow_pages.insert(lo, hi);
        }
        gaps
    }

    /// Releases the allocation at `ptr`. A pointer that was never handed
    /// out is an `UnallocatedFree` (a null one is ignored); a freed one is a
    /// `DoubleFree`. Otherwise the allocation is marked freed and its user
    /// bytes are poisoned.
    pub fn release(&mut self, ptr: u64) -> (r: ReleaseOutcome)
        requires
            old(self).wf(),
        ensures
            final(self).wf(),
            final(self).same_layout(*old(self)),
            final(self).queue() == old(self).queue(),
            final(self).pending == old(self).pending,
            final(self).current_mapping_addr == old(self).current_mapping_addr,
            final(self).total_allocation_size == old(self).total_allocation_size,
            !old(self).table().contains_key(ptr) ==> final(self).table() == old(self).table() && (
            if ptr == 0 {
                r is Ignored
            } else {
                r == ReleaseOutcome::Failed(AsanError::UnallocatedFree(ptr))
            }),
            old(self).table().contains_key(ptr) && old(self).table()[ptr].freed ==> final(self).table() == old(self).table() && r == ReleaseOutcome::Failed(
                AsanError::DoubleFree(ptr),
            ),
            old(self).table().contains_key(ptr) && !old(self).table()[ptr].freed ==> final(self).table() == after_release(old(self).table(), ptr) && r == ReleaseOutcome::Poisoned(
                poison_fill(old(self).shadow(ptr), old(self).table()[ptr].size),
            ),
    {
        match self.allocations.remove(ptr) {
            None => {
                assert(self.table() =~= old(self).table());
                assert(self.queue() == old(self).queue());
                if ptr == 0 {
                    ReleaseOutcome::Ignored
                } else {
                    ReleaseOutcome::Failed(AsanError::UnallocatedFree(ptr))
                }
            },
            Some(mut metadata) => {
                if metadata.freed {
                    let _ = self.allocations.insert(ptr, metadata);
                    assert(self.table() =~= old(self).table());
                    assert(self.queue() == old(self).queue());
                    return ReleaseOutcome::Failed(AsanError::DoubleFree(ptr));
                }
                metadata.freed = true;
                if self.options.enable_backtraces {
                    metadata.release_site_backtrace = Some(capture_backtrace());
                }
                let size = metadata.size;
                let _ = self.allocations.insert(ptr, metadata);
                assert(self.table() =~= after_release(old(self).table(), ptr));
                assert(self.queue() == old(self).queue());
                proof {
                    assert forall|k: u64| #[trigger] self.table().contains_key(k) implies self.table()[k].address
                        + self.page_size == k by {
                        assert(old(self).table().contains_key(k));
                    }
                    assert forall|a: int, k: u64|
                        0 <= a < self.queue().len() && #[trigger] self.table().contains_key(k) implies (
                        #[trigger] self.queue()[a]).address + self.page_size != k by {
                        assert(old(self).table().contains_key(k));
                    }
                }
                ReleaseOutcome::Poisoned(poison(self.map_to_shadow(ptr), size))
            },
        }
    }

    /// The size the user asked for at `ptr`, or `None` if `ptr` was never handed out.
    pub fn get_usable_size(&self, ptr: u64) -> (r: Option<u64>)
        ensures
            r is None <==> !self.table().contains_key(ptr),
            r matches Some(n) ==> n == self.table()[ptr].size,
    {
        match self.allocations.get(ptr) {
            Some(m) => Some(m.size),
            None => None,
        }
    }

    /// Resets the allocator between fuzzing rounds: every freed allocation
    /// leaves the table, is poisoned, cleared and queued for recycling; live
    /// allocations stay; the total handed out restarts from zero. Returns
    /// the shadow writes to perform, one for each freed allocation.
    #[verifier::rlimit(80)]
    pub fn reset(&mut self) -> (r: Vec<ShadowFill>)
        requires
            old(self).wf(),
        ensures
            final(self).wf(),
            final(self).same_layout(*old(self)),
            final(self).pending == old(self).pending,
            final(self).current_mapping_addr == old(self).current_mapping_addr,
            final(self).total_allocation_size == 0,
            forall|k: u64|
                #[trigger] final(self).table().contains_key(k) <==> old(self).table().contains_key(k)
                    && !old(self).table()[k].freed,
            forall|k: u64|
                #[trigger] final(self).table().contains_key(k) ==> final(self).table()[k] == old(
                    self).table()[k],
            old(self).queue().len() <= final(self).queue().len(),
            final(self).queue().subrange(0, old(self).queue().len() as int) == old(self).queue(),
            r@.len() == final(self).queue().len() - old(self).queue().len(),
            forall|i: int|
                0 <= i < r@.len() ==> recycled_from(
                    *old(self),
                    #[trigger] r@[i],
                    final(self).queue()[old(self).queue().len() + i],
                ),
            forall|k: u64|
                old(self).table().contains_key(k) && #[trigger] old(self).table()[k].freed
                    ==> poisons(r@, *old(self), k) && queued(final(self).queue(), *old(self), k),
            forall|a: int, b: int|
                old(self).queue().len() <= a < b < final(self).queue().len() ==> (#[trigger] final(
                    self).queue()[a]).address != (#[trigger] final(self).queue()[b]).address,
    {
        let ghost t0 = self.table();
        let ghost mut src: Seq<int> = Seq::empty();
        let ghost q0 = self.queue();
        let ks = self.allocations.keys();
        self.total_allocation_size = 0;
        assert(self.table() == t0);
        assert(self.queue() == q0);
        let mut fills: Vec<ShadowFill> = Vec::new();
        let mut i: usize = 0;
        while i < ks.len()
            invariant
                old(self).wf(),
                self.total_allocation_size == 0,
                self.wf_layout(*old(self)),
                self.pending == old(self).pending,
                self.current_mapping_addr == old(self).current_mapping_addr,
                t0 == old(self).table(),
                q0 == old(self).queue(),
                i <= ks@.len(),
                forall|j: int| 0 <= j < ks@.len() ==> t0.contains_key(#[trigger] ks@[j]),
                forall|k: u64| t0.contains_key(k) ==> ks@.contains(k),
                forall|a: int, b: int| 0 <= a < b < ks@.len() ==> ks@[a] != ks@[b],
                forall|k: u64|
                    #[trigger] self.table().contains_key(k) ==> t0.contains_key(k) && self.table()[k]
                        == t0[k],
                forall|k: u64|
                    t0.contains_key(k) && !t0[k].freed ==> #[trigger] self.table().contains_key(k),
                forall|j: int|
                    i <= j < ks@.len() ==> #[trigger] self.table().contains_key(ks@[j]),
                forall|j: int|
                    0 <= j < i && t0[ks@[j]].freed ==> !#[trigger] self.table().contains_key(ks@[j]),
                forall|j: int|
                    0 <= j < i && t0[ks@[j]].freed ==> poisons(fills@, *old(self), #[trigger] ks@[j]),
                forall|j: int|
                    0 <= j < i && t0[ks@[j]].freed ==> queued(self.queue(), *old(self), #[trigger] ks@[j]),
                q0.len() <= self.queue().len(),
                self.queue().subrange(0, q0.len() as int) == q0,
                forall|a: int|
                    0 <= a < self.queue().len() ==> (#[trigger] self.queue()[a]).address
                        + self.page_size <= u64::MAX && self.mapping_ok(self.queue()[a]),
                fills@.len() == self.queue().len() - q0.len(),
                src.len() == self.queue().len() - q0.len(),
                forall|a: int|
                    0 <= a < src.len() ==> 0 <= #[trigger] src[a] < i && self.queue()[q0.len() + a].address
                        == t0[ks@[src[a]]].address && t0[ks@[src[a]]].freed,
                forall|a: int, b: int| 0 <= a < b < src.len() ==> src[a] < src[b],
                forall|a: int|
                    0 <= a < fills@.len() ==> recycled_from(
                        *old(self),
                        #[trigger] fills@[a],
                        self.queue()[q0.len() + a],
                    ),
            decreases ks@.len() - i,
        {
            let k = ks[i];
            assert(k == ks@[i as int]);
            assert(self.table().contains_key(ks@[i as int]));
            assert(self.table()[k] == t0[k]);
            let freed = match self.allocations.get(k) {
                Some(m) => m.freed,
                None => false,
            };
            assert(self.table().contains_key(k) && freed == t0[k].freed);
            if !freed {
                proof {
                    assert forall|jj: int| 0 <= jj < i + 1 && t0[ks@[jj]].freed implies poisons(fills@, *old(self), #[trigger] ks@[jj])
                        && queued(self.queue(), *old(self), ks@[jj]) by {
                        if jj == i {
                            assert(!t0[ks@[jj]].freed);
                        }
                    }
                }
            }
            if freed {
                let fill = poison(self.map_to_shadow_of(k), t0_size(&self.allocations, k));
                let ghost before = self.queue();
                let ghost fbefore = fills@;
                assert(self.table().contains_key(k));
                match self.allocations.remove(k) {
                    Some(mut m) => {
                        assert(m.view_meta() == t0[k]);
                        m.size = 0;
                        m.freed = false;
                        m.allocation_site_backtrace = None;
                        m.release_site_backtrace = None;
                        self.allocation_queue.push(m);
                    },
                    None => {
                        assert(false);
                    },
                }
                fills.push(fill);
                proof {
                    assert(self.queue() =~= before.push(recycled(t0[k])));
                    let sbefore = src;
                    src = src.push(i as int);
                    assert forall|a: int| 0 <= a < src.len() implies 0 <= #[trigger] src[a] < i + 1
                        && self.queue()[q0.len() + a].address == t0[ks@[src[a]]].address
                        && t0[ks@[src[a]]].freed by {
                        if a < sbefore.len() {
                            assert(src[a] == sbefore[a]);
                            assert(self.queue()[q0.len() + a] == before[q0.len() + a]);
                        }
                    }
                    assert(t0[k].address + self.page_size == k);
                    assert forall|a: int| 0 <= a < fills@.len() implies recycled_from(
                        *old(self),
                        #[trigger] fills@[a],
                        self.queue()[q0.len() + a],
                    ) by {
                        if a < fbefore.len() {
                            assert(fills@[a] == fbefore[a]);
                            assert(self.queue()[q0.len() + a] == before[q0.len() + a]);
                        } else {
                            assert(fills@[a] == fill);
                            assert(self.queue()[q0.len() + a] == recycled(t0[k]));
                            assert(old(self).table().contains_key(k) && old(self).table()[k].freed);
                        }
                    }
                    assert(fills@[fills@.len() - 1] == poison_fill(old(self).shadow(k), t0[k].size));
                    assert forall|jj: int| 0 <= jj < i + 1 && t0[ks@[jj]].freed implies poisons(fills@, *old(self), #[trigger] ks@[jj]) by {
                        if jj < i {
                            let w = choose|w: int| 0 <= w < fbefore.len() && #[trigger] fbefore[w] == poison_fill(old(self).shadow(ks@[jj]), t0[ks@[jj]].size);
                            assert(fills@[w] == fbefore[w]);
                        } else {
                            assert(fills@[fills@.len() - 1] == poison_fill(old(self).shadow(ks@[jj]), t0[ks@[jj]].size));
                        }
                    }
                    assert forall|jj: int| 0 <= jj < i + 1 && t0[ks@[jj]].freed implies queued(self.queue(), *old(self), #[trigger] ks@[jj]) by {
                        if jj < i {
                            let w = choose|w: int| q0.len() <= w < before.len() && #[trigger] before[w] == recycled(t0[ks@[jj]]);
                            assert(self.queue()[w] == before[w]);
                        } else {
                            assert(self.queue()[self.queue().len() - 1] == recycled(t0[ks@[jj]]));
                        }
                    }
                    assert(self.queue().subrange(0, q0.len() as int) =~= before.subrange(
                        0,
                        q0.len() as int,
                    ));
                }
            }
            i = i + 1;
        }
        proof {
            assert forall|a: int, b: int|
                q0.len() <= a < b < self.queue().len() implies (#[trigger] self.queue()[a]).address
                    != (#[trigger] self.queue()[b]).address by {
                let x = src[a - q0.len()];
                let y = src[b - q0.len()];
                assert(x < y);
                assert(ks@[x] != ks@[y]);
                assert(t0.contains_key(ks@[x]) && t0.contains_key(ks@[y]));
                assert(t0[ks@[x]].address + self.page_size == ks@[x]);
                assert(t0[ks@[y]].address + self.page_size == ks@[y]);
            }
            assert forall|k: u64| t0.contains_key(k) && #[trigger] t0[k].freed implies poisons(fills@, *old(self), k) && queued(self.queue(), *old(self), k) by {
                assert(ks@.contains(k));
                let j = choose|j: int| 0 <= j < ks@.len() && ks@[j] == k;
                assert(t0[ks@[j]].freed);
            }
            assert forall|k: u64| #[trigger] self.table().contains_key(k) <==> t0.contains_key(k) && !t0[k].freed by {
                if t0.contains_key(k) && t0[k].freed {
                    assert(ks@.contains(k));
                    let j = choose|j: int| 0 <= j < ks@.len() && ks@[j] == k;
                    assert(i == ks@.len());
                    assert(0 <= j < i && t0[ks@[j]].freed);
                    assert(!self.table().contains_key(ks@[j]));
                }
            }
            assert forall|a: int, b: int| 0 <= a < b < self.queue().len() implies (
                #[trigger] self.queue()[a]).address != (#[trigger] self.queue()[b]).address by {
                if b < q0.len() {
                    assert(self.queue().subrange(0, q0.len() as int)[a] == self.queue()[a]);
                    assert(self.queue().subrange(0, q0.len() as int)[b] == self.queue()[b]);
                } else if a < q0.len() {
                    assert(self.queue().subrange(0, q0.len() as int)[a] == self.queue()[a]);
                    let kk = ks@[src[b - q0.len()]];
                    assert(t0.contains_key(kk));
                    assert(q0[a].address + self.page_size != kk);
                    assert(t0[kk].address + self.page_size == kk);
                }
            }
            assert forall|a: int, k: u64|
                0 <= a < self.queue().len() && #[trigger] self.table().contains_key(k) implies (
                #[trigger] self.queue()[a]).address + self.page_size != k by {
                assert(t0.contains_key(k) && !t0[k].freed);
                if a < q0.len() {
                    assert(self.queue().subrange(0, q0.len() as int)[a] == self.queue()[a]);
                    assert(q0[a].address + self.page_size != k);
                } else {
                    let kk = ks@[src[a - q0.len()]];
                    assert(t0.contains_key(kk) && t0[kk].freed);
                    assert(t0[kk].address + self.page_size == kk);
                }
            }
        }
        fills
    }

    /// The layout fields are those of `old`, and they are sane.
    pub open spec fn wf_layout(&self, old: Allocator) -> bool {
        &&& self.same_layout(old)
        &&& 1 <= self.shadow_bit <= 61
        &&& self.shadow_offset == 1u64 << self.shadow_bit
        &&& 0 < self.page_size <= 0x1_0000_0000
        &&& self.base_mapping_addr <= self.current_mapping_addr
        &&& self.pending matches Some(p) ==> p.rounded == mapping_size(
            p.size as int,
            self.page_size as int,
        )
    }

    fn map_to_shadow_of(&self, start: u64) -> (r: u64)
        requires
            1 <= self.shadow_bit <= 61,
            self.shadow_offset == 1u64 << self.shadow_bit,
        ensures
            r as int == shadow_of(self.shadow_bit, start),
    {
        proof {
            lemma_shadow_fits(self.shadow_bit, start);
        }
        let b = self.shadow_bit;
        assert(1 <= b <= 61 ==> (1u64 << ((b + 1) as u64)) >= 1u64) by (bit_vector);
        let mask: u64 = (1u64 << (b + 1)) - 1;
        self.shadow_offset + ((start >> 3u64) & mask)
    }

    /// A `Leak` for every allocation that was never released, by mapping address.
    pub fn check_for_leaks(&self) -> (r: Vec<AsanError>)
        ensures
            forall|i: int| 0 <= i < r@.len() ==> leak_in(self.table(), #[trigger] r@[i]),
            forall|k: u64|
                self.table().contains_key(k) && !#[trigger] self.table()[k].freed ==> r@.contains(
                    AsanError::Leak(self.table()[k].address),
                ),
    {
        let ks = self.allocations.keys();
        let mut leaks: Vec<AsanError> = Vec::new();
        let mut i: usize = 0;
        while i < ks.len()
            invariant
                i <= ks@.len(),
                forall|j: int| 0 <= j < ks@.len() ==> self.table().contains_key(#[trigger] ks@[j]),
                forall|k: u64| self.table().contains_key(k) ==> ks@.contains(k),
                forall|a: int|
                    0 <= a < leaks@.len() ==> exists|k: u64|
                        self.table().contains_key(k) && !self.table()[k].freed && #[trigger] leaks@[a]
                            == AsanError::Leak(self.table()[k].address),
                forall|j: int|
                    0 <= j < i && !self.table()[#[trigger] ks@[j]].freed ==> leaks@.contains(
                        AsanError::Leak(self.table()[ks@[j]].address),
                    ),
            decreases ks@.len() - i,
        {
            let k = ks[i];
            match self.allocations.get(k) {
                Some(m) => {
                    if !m.freed {
                        let ghost before = leaks@;
                        leaks.push(AsanError::Leak(m.address));
                        proof {
                            assert(leaks@[leaks@.len() - 1] == AsanError::Leak(self.table()[k].address));
                            assert forall|a: int| 0 <= a < leaks@.len() implies exists|k2: u64|
                                self.table().contains_key(k2) && !self.table()[k2].freed
                                    && #[trigger] leaks@[a] == AsanError::Leak(self.table()[k2].address) by {
                                if a < before.len() {
                                    assert(leaks@[a] == before[a]);
                                }
                            }
                            assert forall|j: int| 0 <= j < i + 1 && !self.table()[#[trigger] ks@[j]].freed implies leaks@.contains(
                                AsanError::Leak(self.table()[ks@[j]].address)) by {
                                if j < i {
                                    assert(before.contains(AsanError::Leak(self.table()[ks@[j]].address)));
                                    let w = choose|w: int| 0 <= w < before.len() && before[w] == AsanError::Leak(self.table()[ks@[j]].address);
                                    assert(leaks@[w] == before[w]);
                                } else {
                                    assert(leaks@[leaks@.len() - 1] == AsanError::Leak(self.table()[ks@[j]].address));
                                }
                            }
                        }
                    }
                },
                None => {},
            }
            i = i + 1;
        }
        proof {
            assert forall|a: int| 0 <= a < leaks@.len() implies leak_in(self.table(), #[trigger] leaks@[a]) by {
                let k = choose|k: u64|
                    self.table().contains_key(k) && !self.table()[k].freed && #[trigger] leaks@[a]
                        == AsanError::Leak(self.table()[k].address);
            }
            assert forall|k: u64| self.table().contains_key(k) && !#[trigger] self.table()[k].freed implies leaks@.contains(
                AsanError::Leak(self.table()[k].address)) by {
                assert(ks@.contains(k));
                let j = choose|j: int| 0 <= j < ks@.len() && ks@[j] == k;
                assert(!self.table()[ks@[j]].freed);
            }
        }
        leaks
    }

    /// The allocation that a probe of `ptr` belongs to: the one whose mapping
    /// starts at `hint_base` if there is one; otherwise the one whose mapping
    /// address is nearest to `ptr`, the lowest among equally near ones.
    /// `None` without allocations.
    pub fn find_metadata(&self, ptr: u64, hint_base: u64) -> (r: Option<&AllocationMetadata>)
        ensures
            r is None <==> self.table().dom() == Set::<u64>::empty(),
            r matches Some(m) ==> nearest_in(self.table(), m.view_meta(), ptr, hint_base),
            r matches Some(m) ==> ((exists|k: u64| #[trigger] self.table().contains_key(k)
                && self.table()[k].address == hint_base) ==> m.address == hint_base),
    {
        let ks = self.allocations.keys();
        let mut best: Option<&AllocationMetadata> = None;
        let mut bk: u64 = 0;
        let mut i: usize = 0;
        while i < ks.len()
            invariant
                i <= ks@.len(),
                forall|j: int| 0 <= j < ks@.len() ==> self.table().contains_key(#[trigger] ks@[j]),
                forall|k: u64| self.table().contains_key(k) ==> ks@.contains(k),
                best is None <==> i == 0,
                best matches Some(m) ==> self.table().contains_key(bk) && self.table()[bk]
                    == m.view_meta() && forall|j: int|
                    0 <= j < i ==> closer_or_equal(
                        m.view_meta(),
                        #[trigger] self.table()[ks@[j]],
                        ptr,
                        hint_base,
                    ),
            decreases ks@.len() - i,
        {
            let k = ks[i];
            match self.allocations.get(k) {
                Some(m) => {
                    let take = match best {
                        None => true,
                        Some(b) => !closer_or_equal_exec(b, m, ptr, hint_base),
                    };
                    if take {
                        proof {
                            match best {
                                Some(b) => {
                                    assert forall|j: int| 0 <= j < i + 1 implies closer_or_equal(
                                        m.view_meta(),
                                        #[trigger] self.table()[ks@[j]],
                                        ptr,
                                        hint_base,
                                    ) by {
                                        if j < i {
                                            lemma_closer_trans(m.view_meta(), b.view_meta(), self.table()[ks@[j]], ptr, hint_base);
                                        } else {
                                            lemma_closer_refl(m.view_meta(), ptr, hint_base);
                                        }
                                    }
                                },
                                None => {
                                    lemma_closer_refl(m.view_meta(), ptr, hint_base);
                                },
                            }
                        }
                        best = Some(m);
                        bk = k;
                    }
                },
                None => {},
            }
            i = i + 1;
        }
        proof {
            if best is None {
                assert(self.table().dom() =~= Set::<u64>::empty()) by {
                    assert forall|k: u64| !self.table().dom().contains(k) by {
                        if self.table().contains_key(k) {
                            assert(ks@.contains(k));
                        }
                    }
                }
            } else {
                let m = best.unwrap();
                assert(self.table().contains_key(bk));
                assert forall|k2: u64| #[trigger] self.table().contains_key(k2) implies closer_or_equal(
                    m.view_meta(), self.table()[k2], ptr, hint_base) by {
                    assert(ks@.contains(k2));
                    let j = choose|j: int| 0 <= j < ks@.len() && ks@[j] == k2;
                    assert(closer_or_equal(m.view_meta(), self.table()[ks@[j]], ptr, hint_base));
                }
                assert(nearest_in(self.table(), m.view_meta(), ptr, hint_base));
                if exists|k: u64| #[trigger] self.table().contains_key(k) && self.table()[k].address == hint_base {
                    let k = choose|k: u64| #[trigger] self.table().contains_key(k) && self.table()[k].address == hint_base;
                    assert(closer_or_equal(m.view_meta(), self.table()[k], ptr, hint_base));
                }
            }
        }
        best
    }

    /// Takes out of the queue the best fit for a mapping of `size` bytes.
    fn find_smallest_fit(&mut self, size: u64) -> (r: Option<AllocationMetadata>)
        ensures
            r is None ==> !has_fit(old(self).queue(), size) && final(self).allocation_queue@
                == old(self).allocation_queue@,
            r matches Some(m) ==> exists|i: int|
                best_fit(old(self).queue(), size, i) && #[trigger] old(self).queue()[i]
                    == m.view_meta() && final(self).queue() == old(self).queue().remove(i),
            final(self).allocations == old(self).allocations,
            final(self).pending == old(self).pending,
            final(self).page_size == old(self).page_size,
            final(self).shadow_bit == old(self).shadow_bit,
            final(self).shadow_offset == old(self).shadow_offset,
            final(self).base_mapping_addr == old(self).base_mapping_addr,
            final(self).current_mapping_addr == old(self).current_mapping_addr,
            final(self).total_allocation_size == old(self).total_allocation_size,
            final(self).largest_allocation == old(self).largest_allocation,
            final(self).options == old(self).options,
            final(self).pre_allocated_shadow == old(self).pre_allocated_shadow,
    {
        let ghost q = self.queue();
        let n = self.allocation_queue.len();
        let mut best: Option<usize> = None;
        let mut k: usize = 0;
        while k < n
            invariant
                n == q.len(),
                q == self.queue(),
                k <= n,
                best matches Some(b) ==> best_fit(q.subrange(0, k as int), size, b as int),
                best is None ==> forall|j: int| 0 <= j < k ==> q[j].actual_size < size,
            decreases n - k,
        {
            let a = self.allocation_queue[k].actual_size;
            assert(a == q[k as int].actual_size);
            if a >= size {
                match best {
                    None => {
                        best = Some(k);
                    },
                    Some(b) => {
                        if a <= self.allocation_queue[b].actual_size {
                            best = Some(k);
                        }
                    },
                }
            }
            k = k + 1;
            assert(q.subrange(0, k as int).len() == k);
        }
        assert(q.subrange(0, n as int) =~= q);
        match best {
            None => {
                None
            },
            Some(b) => {
                let m = self.allocation_queue.remove(b);
                assert(self.queue() =~= q.remove(b as int));
                Some(m)
            },
        }
    }

    fn round_up_to_page(&self, size: u64) -> (r: Option<u64>)
        requires
            self.wf(),
        ensures
            r matches Some(v) ==> v as int == round_up(size as int, self.page_size as int)
                && size < v,
            r is None ==> size + self.page_size > u64::MAX,
    {
        if size > u64::MAX - self.page_size {
            return None;
        }
        let p = self.page_size;
        let x = size + p;
        proof {
            vstd::arithmetic::div_mod::lemma_fundamental_div_mod(x as int, p as int);
            vstd::arithmetic::mul::lemma_mul_is_commutative((x / p) as int, p as int);
            assert(0 <= (x as int) % (p as int) < p);
        }
        Some((x / p) * p)
    }

    fn round_down_to_page(&self, value: u64) -> (r: u64)
        requires
            self.wf(),
        ensures
            r <= value,
            r % self.page_size == 0,
            r == (value / self.page_size) * self.page_size,
    {
        let p = self.page_size;
        proof {
            vstd::arithmetic::div_mod::lemma_fundamental_div_mod(value as int, p as int);
            vstd::arithmetic::mul::lemma_mul_is_commutative((value / p) as int, p as int);
            vstd::arithmetic::div_mod::lemma_mod_multiples_basic((value / p) as int, p as int);
        }
        (value / p) * p
    }
}

} // verus!
