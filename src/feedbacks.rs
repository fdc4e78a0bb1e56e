//! Feedbacks: classifiers that decide, after a run, whether an input is
//! worth keeping (a feedback) or is a solution (an objective).
use vstd::prelude::*;

verus! {

/// How a run of the target ended.
#[derive(Debug, Clone, Copy, PartialEq, Eq, Structural)]
pub enum ExitKind {
    /// The run ended normally.
    Normal,
    Crash,
    Timeout,
    Diff,
    User(u32),
}

/// The larger of two bytes.
pub open spec fn max_u8(a: u8, b: u8) -> u8 {
    if a >= b {
        a
    } else {
        b
    }
}

/// The pointwise maximum of two maps of equal length.
pub open spec fn pointwise_max(best: Seq<u8>, map: Seq<u8>) -> Seq<u8> {
    Seq::new(best.len(), |i: int| max_u8(best[i], map[i]))
}

/// Whether `map` beats `best` at `i`: a higher count, or, when tracking
/// indexes only, a first hit.
pub open spec fn novel_at(best: Seq<u8>, map: Seq<u8>, i: int, indexes: bool) -> bool {
    if indexes {
        map[i] != 0 && best[i] == 0
    } else {
        map[i] > best[i]
    }
}

/// The best coverage seen after the maps `maps`, in order, starting from `init`.
pub open spec fn fold_max(init: Seq<u8>, maps: Seq<Seq<u8>>) -> Seq<u8>
    decreases maps.len(),
{
    if maps.len() == 0 {
        init
    } else {
        pointwise_max(fold_max(init, maps.drop_last()), maps.last())
    }
}

/// The largest count that any of `maps` has at `i`, 0 if there is none.
pub open spec fn column_max(maps: Seq<Seq<u8>>, i: int) -> u8
    decreases maps.len(),
{
    if maps.len() == 0 {
        0
    } else {
        max_u8(column_max(maps.drop_last(), i), maps.last()[i])
    }
}

/// The persistent best coverage map of a `MaxMapFeedback`.
#[derive(Debug)]
pub struct MapFeedbackState {
    pub history_map: Vec<u8>,
}

impl MapFeedbackState {
    /// A state for maps of `len` entries, all zero.
    pub fn new(len: usize) -> (r: MapFeedbackState)
        ensures
            r.history_map@ == Seq::new(len as nat, |i: int| 0u8),
    {
        let mut v: Vec<u8> = Vec::new();
        let mut i: usize = 0;
        while i < len
            invariant
                i <= len,
                v@ =~= Seq::new(i as nat, |j: int| 0u8),
            decreases len - i,
        {
            v.push(0u8);
            i = i + 1;
            assert(v@ =~= Seq::new(i as nat, |j: int| 0u8));
        }
        MapFeedbackState { history_map: v }
    }
}

/// Keeps an input whose coverage map beats the best one seen so far.
#[derive(Debug)]
pub struct MaxMapFeedback {
    /// Track only whether an entry was ever hit, not its count.
    pub indexes: bool,
    /// The entries that the last interesting run beat, in increasing order.
    pub novelties: Vec<usize>,
}

impl MaxMapFeedback {
    /// A feedback that compares counts, or only first hits when `indexes` is set.
    pub fn new(indexes: bool) -> (r: MaxMapFeedback)
        ensures
            r.indexes == indexes,
            r.novelties@.len() == 0,
    {
        MaxMapFeedback { indexes, novelties: Vec::new() }
    }

    /// Judges a run by its coverage `map`: it is interesting iff it beats
    /// the best map at some entry. The best map becomes the pointwise
    /// maximum of both, whatever the verdict; the entries beaten are kept,
    /// in order, as the novelties of the run.
    pub fn is_interesting(&mut self, state: &mut MapFeedbackState, map: &[u8]) -> (r: bool)
        requires
            map@.len() == old(state).history_map@.len(),
        ensures
            final(self).indexes == old(self).indexes,
            final(state).history_map@ == pointwise_max(old(state).history_map@, map@),
            r == exists|i: int|
                0 <= i < map@.len() && #[trigger] novel_at(
                    old(state).history_map@,
                    map@,
                    i,
                    old(self).indexes,
                ),
            forall|k: int|
                0 <= k < final(self).novelties@.len() ==> 0 <= #[trigger] final(self).novelties@[k]
                    < map@.len() && novel_at(
                    old(state).history_map@,
                    map@,
                    final(self).novelties@[k] as int,
                    old(self).indexes,
                ),
            forall|i: int|
                0 <= i < map@.len() && #[trigger] novel_at(
                    old(state).history_map@,
                    map@,
                    i,
                    old(self).indexes,
                ) ==> final(self).novelties@.contains(i as usize),
            forall|a: int, b: int|
                0 <= a < b < final(self).novelties@.len() ==> final(self).novelties@[a]
                    < final(self).novelties@[b],
    {
        let ghost best0 = state.history_map@;
        let n = map.len();
        self.novelties.clear();
        let mut interesting = false;
        let mut i: usize = 0;
        while i < n
            invariant
                n == map@.len(),
                best0.len() == n,
                i <= n,
                self.indexes == old(self).indexes,
                state.history_map@.len() == n,
                forall|j: int| 0 <= j < i ==> state.history_map@[j] == max_u8(best0[j], map@[j]),
                forall|j: int| i <= j < n ==> state.history_map@[j] == best0[j],
                interesting == exists|j: int|
                    0 <= j < i && #[trigger] novel_at(best0, map@, j, old(self).indexes),
                forall|k: int|
                    0 <= k < self.novelties@.len() ==> 0 <= #[trigger] self.novelties@[k] < i
                        && novel_at(best0, map@, self.novelties@[k] as int, old(self).indexes),
                forall|j: int|
                    0 <= j < i && #[trigger] novel_at(best0, map@, j, old(self).indexes)
                        ==> self.novelties@.contains(j as usize),
                forall|a: int, b: int|
                    0 <= a < b < self.novelties@.len() ==> self.novelties@[a] < self.novelties@[b],
            decreases n - i,
        {
            let b = state.history_map[i];
            let m = map[i];
            let novel = if self.indexes { m != 0 && b == 0 } else { m > b };
            assert(novel == novel_at(best0, map@, i as int, old(self).indexes));
            if novel {
                interesting = true;
                let ghost before = self.novelties@;
                self.novelties.push(i);
                proof {
                    assert(self.novelties@[self.novelties@.len() - 1] == i);
                    assert forall|j: int|
                        0 <= j < i + 1 && #[trigger] novel_at(best0, map@, j, old(self).indexes)
                        implies self.novelties@.contains(j as usize) by {
                        if j < i {
                            let w = choose|w: int| 0 <= w < before.len() && before[w] == j as usize;
                            assert(self.novelties@[w] == before[w]);
                        } else {
                            assert(self.novelties@[self.novelties@.len() - 1] == j as usize);
                        }
                    }
                }
            }
            if m > b {
                state.history_map.set(i, m);
            }
            i = i + 1;
        }
        assert(state.history_map@ =~= pointwise_max(best0, map@));
        interesting
    }
}

/// The best map after a sequence of runs, each folded in with
/// `is_interesting`, holds at every entry the largest count any run had
/// there, whatever the verdicts were.
pub proof fn lemma_best_is_column_max(maps: Seq<Seq<u8>>, n: nat, i: int)
    requires
        forall|k: int| 0 <= k < maps.len() ==> (#[trigger] maps[k]).len() == n,
        0 <= i < n,
    ensures
        fold_max(Seq::new(n, |j: int| 0u8), maps).len() == n,
        fold_max(Seq::new(n, |j: int| 0u8), maps)[i] == column_max(maps, i),
    decreases maps.len(),
{
    if maps.len() > 0 {
        let prefix = maps.drop_last();
        assert forall|k: int| 0 <= k < prefix.len() implies (#[trigger] prefix[k]).len() == n by {
            assert(prefix[k] == maps[k]);
        }
        lemma_best_is_column_max(prefix, n, i);
    }
}

/// Whether an objective that looks for crashes fires on this exit.
pub fn crash_feedback(exit_kind: ExitKind) -> (r: bool)
    ensures
        r == (exit_kind == ExitKind::Crash),
{
    exit_kind == ExitKind::Crash
}

/// Whether an objective that looks for timeouts fires on this exit.
pub fn timeout_feedback(exit_kind: ExitKind) -> (r: bool)
    ensures
        r == (exit_kind == ExitKind::Timeout),
{
    exit_kind == ExitKind::Timeout
}

} // verus!
