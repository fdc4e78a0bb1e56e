//! The table of live and freed allocations, kept in a `hashbrown` map.
use vstd::prelude::*;

verus! {

/// Captured call stack of an allocation or release site.
#[verifier::external_type_specification]
#[verifier::external_body]
pub struct ExBacktrace(backtrace::Backtrace);

/// Relies on `backtrace::Backtrace::new_unresolved`: captures the current
/// call stack without resolving symbols. Nothing is promised of the frames.
#[verifier::external_body]
pub(crate) fn capture_backtrace() -> backtrace::Backtrace {
    backtrace::Backtrace::new_unresolved()
}

/// Metadata for one allocation of the shadow allocator.
#[derive(Debug)]
pub struct AllocationMetadata {
    /// Start of the whole mapping, guard page included.
    pub address: u64,
    /// Size the caller asked for (16 for a zero-sized request).
    pub size: u64,
    /// Size of the whole mapping, guard pages included.
    pub actual_size: u64,
    pub allocation_site_backtrace: Option<backtrace::Backtrace>,
    pub release_site_backtrace: Option<backtrace::Backtrace>,
    pub freed: bool,
    pub is_malloc_zero: bool,
}

/// What the allocator needs to know of a metadata record.
pub struct MetaView {
    pub address: u64,
    pub size: u64,
    pub actual_size: u64,
    pub freed: bool,
    pub is_malloc_zero: bool,
}

impl AllocationMetadata {
    /// The record without its backtraces.
    pub open spec fn view_meta(&self) -> MetaView {
        MetaView {
            address: self.address,
            size: self.size,
            actual_size: self.actual_size,
            freed: self.freed,
            is_malloc_zero: self.is_malloc_zero,
        }
    }
}

/// Allocations keyed by the pointer handed to the user.
#[verifier::external_body]
#[derive(Debug)]
pub struct AllocationMap {
    map: hashbrown::HashMap<u64, AllocationMetadata>,
}

/// The records that an allocation table holds, by user pointer.
pub uninterp spec fn allocation_entries(m: AllocationMap) -> Map<u64, MetaView>;

impl AllocationMap {
    pub open spec fn entries(&self) -> Map<u64, MetaView> {
        allocation_entries(*self)
    }

    /// Relies on `hashbrown::HashMap::new`: an empty map.
    #[verifier::external_body]
    pub(crate) fn new() -> (r: AllocationMap)
        ensures
            allocation_entries(r).dom() == Set::<u64>::empty(),
    {
        AllocationMap { map: hashbrown::HashMap::new() }
    }

    /// Relies on `hashbrown::HashMap::get`: the record stored under `key`, if any.
    #[verifier::external_body]
    pub(crate) fn get(&self, key: u64) -> (r: Option<&AllocationMetadata>)
        ensures
            r is None <==> !allocation_entries(*self).contains_key(key),
            r matches Some(m) ==> allocation_entries(*self)[key] == m.view_meta(),
    {
        self.map.get(&key)
    }

    /// Relies on `hashbrown::HashMap::insert`: stores `value` under `key`,
    /// replacing and returning what was stored there.
    #[verifier::external_body]
    pub(crate) fn insert(&mut self, key: u64, value: AllocationMetadata) -> (r: Option<AllocationMetadata>)
        ensures
            allocation_entries(*final(self)) == allocation_entries(*old(self)).insert(key, value.view_meta()),
            r is None <==> !allocation_entries(*old(self)).contains_key(key),
            r matches Some(m) ==> allocation_entries(*old(self))[key] == m.view_meta(),
    {
        self.map.insert(key, value)
    }

    /// Relies on `hashbrown::HashMap::remove`: takes out the record stored under `key`.
    #[verifier::external_body]
    pub(crate) fn remove(&mut self, key: u64) -> (r: Option<AllocationMetadata>)
        ensures
            allocation_entries(*final(self)) == allocation_entries(*old(self)).remove(key),
            r is None <==> !allocation_entries(*old(self)).contains_key(key),
            r matches Some(m) ==> allocation_entries(*old(self))[key] == m.view_meta(),
    {
        self.map.remove(&key)
    }

    /// Relies on `hashbrown::HashMap::keys`: every key once, in no
    /// particular order.
    #[verifier::external_body]
    pub(crate) fn keys(&self) -> (r: Vec<u64>)
        ensures
            forall|i: int| 0 <= i < r@.len() ==> allocation_entries(*self).contains_key(#[trigger] r@[i]),
            forall|k: u64| allocation_entries(*self).contains_key(k) ==> r@.contains(k),
            forall|i: int, j: int| 0 <= i < j < r@.len() ==> r@[i] != r@[j],
    {
        self.map.keys().copied().collect()
    }

}

} // verus!
