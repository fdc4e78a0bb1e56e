//! The set of shadow-memory pages already mapped, kept in a `rangemap` set.
use vstd::prelude::*;

verus! {

/// Ranges of shadow memory that are mapped.
#[verifier::external_body]
#[derive(Debug)]
pub struct ShadowPageSet {
    ranges: rangemap::RangeSet<u64>,
}

/// The addresses that a shadow page set covers.
pub uninterp spec fn covered_addresses(s: ShadowPageSet) -> Set<u64>;

impl ShadowPageSet {
    /// Relies on `rangemap::RangeSet::new`: an empty set.
    #[verifier::external_body]
    pub(crate) fn new() -> (r: ShadowPageSet)
        ensures
            covered_addresses(r) == Set::<u64>::empty(),
    {
        ShadowPageSet { ranges: rangemap::RangeSet::new() }
    }

    /// Relies on `rangemap::RangeSet::gaps`: the maximal ranges inside
    /// `[lo, hi)` that the set does not cover, in increasing order.
    #[verifier::external_body]
    pub(crate) fn gaps(&self, lo: u64, hi: u64) -> (r: Vec<(u64, u64)>)
        ensures
            forall|i: int| 0 <= i < r@.len() ==> lo <= (#[trigger] r@[i]).0 <= r@[i].1 <= hi,
            forall|x: u64|
                lo <= x < hi && !covered_addresses(*self).contains(x) ==> exists|i: int|
                    0 <= i < r@.len() && (#[trigger] r@[i]).0 <= x < r@[i].1,
    {
        self.ranges.gaps(&(lo..hi)).map(|g| (g.start, g.end)).collect()
    }

    /// Relies on `rangemap::RangeSet::insert`: adds `[lo, hi)` to the set.
    #[verifier::external_body]
    pub(crate) fn insert(&mut self, lo: u64, hi: u64)
        requires
            lo < hi,
        ensures
            forall|x: u64|
                #[trigger] covered_addresses(*final(self)).contains(x) <==> covered_addresses(
                    *old(self),
                ).contains(x) || lo <= x < hi,
    {
        self.ranges.insert(lo..hi)
    }
}

} // verus!
