//! The decisions of the fuzzing loop: classifying an executed input and
//! picking the next corpus entry. Running the target and firing events is
//! the caller's part.
use vstd::prelude::*;
use crate::corpus::{InMemoryCorpus, Testcase};
use crate::error::Error;
use crate::feedbacks::{crash_feedback, pointwise_max, ExitKind, MaxMapFeedback};
use crate::inputs::BytesInput;
use crate::state::StdState;

verus! {

/// Where an executed input went.
#[derive(Debug, Clone, Copy, PartialEq, Eq, Structural)]
pub enum ExecuteInputResult {
    /// Neither interesting nor a solution.
    Discarded,
    /// Added to the corpus.
    Corpus,
    /// Added to the solutions.
    Solution,
}

/// The entries of `map` that were hit, in increasing order.
pub fn hit_indexes(map: &[u8]) -> (r: Vec<usize>)
    ensures
        forall|k: int| 0 <= k < r@.len() ==> 0 <= #[trigger] r@[k] < map@.len() && map@[r@[k] as int] != 0,
        forall|i: int| 0 <= i < map@.len() && map@[i] != 0 ==> r@.contains(i as usize),
        forall|a: int, b: int| 0 <= a < b < r@.len() ==> r@[a] < r@[b],
{
    let mut r: Vec<usize> = Vec::new();
    let mut i: usize = 0;
    while i < map.len()
        invariant
            i <= map@.len(),
            forall|k: int| 0 <= k < r@.len() ==> 0 <= #[trigger] r@[k] < i && map@[r@[k] as int] != 0,
            forall|j: int| 0 <= j < i && map@[j] != 0 ==> r@.contains(j as usize),
            forall|a: int, b: int| 0 <= a < b < r@.len() ==> r@[a] < r@[b],
        decreases map@.len() - i,
    {
        if map[i] != 0 {
            let ghost before = r@;
            r.push(i);
            proof {
                assert(r@[r@.len() - 1] == i);
                assert forall|j: int| 0 <= j < i + 1 && map@[j] != 0 implies r@.contains(j as usize) by {
                    if j < i {
                        let w = choose|w: int| 0 <= w < before.len() && before[w] == j as usize;
                        assert(r@[w] == before[w]);
                    } else {
                        assert(r@[r@.len() - 1] == j as usize);
                    }
                }
            }
        }
        i = i + 1;
    }
    r
}

/// Entry `j` of the corpus is present and reached map entry `i`.
pub open spec fn entry_covers(c: InMemoryCorpus, j: int, i: int) -> bool {
    c.has(j) && c.entries@[j].unwrap().indexes@.contains(i as usize)
}

/// The cost of keeping an entry: its length times its execution time.
pub open spec fn weight(c: InMemoryCorpus, j: int) -> int {
    c.entries@[j].unwrap().input@.len() * match c.entries@[j].unwrap().exec_time_ns {
        Some(t) => t as int,
        None => 0,
    }
}

/// Entry `k` was taken into account for map entry `i` once entries before
/// `j`, and the first `p` indexes of entry `j`, were looked at.
pub open spec fn seen(c: InMemoryCorpus, j: int, p: int, k: int, i: int) -> bool {
    (0 <= k < j && entry_covers(c, k, i)) || (k == j && c.has(j)
        && c.entries@[j].unwrap().indexes@.subrange(0, p).contains(i as usize))
}

/// `top` names, for each map entry, a cheapest corpus entry among those
/// seen that reached it, or none if none was seen.
pub open spec fn top_rated_upto(c: InMemoryCorpus, top: Seq<Option<usize>>, j: int, p: int) -> bool {
    forall|i: int|
        0 <= i < top.len() ==> match #[trigger] top[i] {
            None => forall|k: int| !#[trigger] seen(c, j, p, k, i),
            Some(t) => seen(c, j, p, t as int, i) && forall|k: int|
                #[trigger] seen(c, j, p, k, i) ==> weight(c, t as int) <= weight(c, k),
        }
}

proof fn lemma_top_same(c: InMemoryCorpus, top: Seq<Option<usize>>, ja: int, pa: int, jb: int, pb: int)
    requires
        top_rated_upto(c, top, ja, pa),
        forall|i: int, k: int| 0 <= i < top.len() ==> seen(c, ja, pa, k, i) == seen(c, jb, pb, k, i),
    ensures
        top_rated_upto(c, top, jb, pb),
{
    assert forall|i: int| 0 <= i < top.len() implies match #[trigger] top[i] {
        None => forall|k: int| !#[trigger] seen(c, jb, pb, k, i),
        Some(t) => seen(c, jb, pb, t as int, i) && forall|k: int|
            #[trigger] seen(c, jb, pb, k, i) ==> weight(c, t as int) <= weight(c, k),
    } by {
        match top[i] {
            None => {
                assert forall|k: int| !#[trigger] seen(c, jb, pb, k, i) by {
                    assert(seen(c, ja, pa, k, i) == seen(c, jb, pb, k, i));
                }
            },
            Some(t) => {
                assert(seen(c, ja, pa, t as int, i) == seen(c, jb, pb, t as int, i));
                assert forall|k: int| #[trigger] seen(c, jb, pb, k, i) implies weight(c, t as int) <= weight(c, k) by {
                    assert(seen(c, ja, pa, k, i) == seen(c, jb, pb, k, i));
                }
            },
        }
    }
}

proof fn lemma_top_step(
    c: InMemoryCorpus,
    top0: Seq<Option<usize>>,
    top1: Seq<Option<usize>>,
    j: int,
    p: int,
    x: int,
)
    requires
        top_rated_upto(c, top0, j, p),
        c.has(j),
        0 <= p < c.entries@[j].unwrap().indexes@.len(),
        x == c.entries@[j].unwrap().indexes@[p],
        top1.len() == top0.len(),
        forall|i: int| 0 <= i < top0.len() && i != x ==> top1[i] == top0[i],
        0 <= x < top0.len() ==> (top1[x] == top0[x] || top1[x] == Some(j as usize)),
        0 <= x < top0.len() && top1[x] == top0[x] ==> (top0[x] matches Some(t) && weight(c, t as int) <= weight(c, j)),
        0 <= x < top0.len() && top1[x] != top0[x] ==> (top0[x] matches Some(t) ==> weight(c, j) < weight(c, t as int)),
        0 <= j,
        j < usize::MAX,
        top0.len() <= usize::MAX,
    ensures
        top_rated_upto(c, top1, j, p + 1),
{
    let idxs = c.entries@[j].unwrap().indexes@;
    assert(idxs.subrange(0, p + 1) =~= idxs.subrange(0, p).push(x as usize));
    assert forall|y: int, k: int| 0 <= y <= usize::MAX && y != x implies seen(c, j, p + 1, k, y) == seen(c, j, p, k, y) by {
        if idxs.subrange(0, p + 1).contains(y as usize) && k == j {
            let w = choose|w: int| 0 <= w < p + 1 && #[trigger] idxs.subrange(0, p + 1)[w] == y as usize;
            assert(w != p);
            assert(idxs.subrange(0, p)[w] == y as usize);
        }
        if idxs.subrange(0, p).contains(y as usize) && k == j {
            let w = choose|w: int| 0 <= w < p && #[trigger] idxs.subrange(0, p)[w] == y as usize;
            assert(idxs.subrange(0, p + 1)[w] == y as usize);
        }
    }
    assert forall|k: int| seen(c, j, p + 1, k, x) <==> (seen(c, j, p, k, x) || k == j) by {
        assert(idxs.subrange(0, p + 1)[p] == x as usize);
        if idxs.subrange(0, p).contains(x as usize) && k == j {
            let w = choose|w: int| 0 <= w < p && #[trigger] idxs.subrange(0, p)[w] == x as usize;
            assert(idxs.subrange(0, p + 1)[w] == x as usize);
        }
    }
    assert forall|i: int| 0 <= i < top1.len() implies match #[trigger] top1[i] {
        None => forall|k: int| !#[trigger] seen(c, j, p + 1, k, i),
        Some(t) => seen(c, j, p + 1, t as int, i) && forall|k: int|
            #[trigger] seen(c, j, p + 1, k, i) ==> weight(c, t as int) <= weight(c, k),
    } by {
        if i != x {
            match top0[i] {
                None => {
                    assert forall|k: int| !#[trigger] seen(c, j, p + 1, k, i) by {
                        assert(seen(c, j, p + 1, k, i) == seen(c, j, p, k, i));
                    }
                },
                Some(t) => {
                    assert(seen(c, j, p + 1, t as int, i) == seen(c, j, p, t as int, i));
                    assert forall|k: int| #[trigger] seen(c, j, p + 1, k, i) implies weight(c, t as int) <= weight(c, k) by {
                        assert(seen(c, j, p + 1, k, i) == seen(c, j, p, k, i));
                    }
                },
            }
        } else {
            if top1[i] == top0[i] {
                let t = top0[i].unwrap();
                assert(seen(c, j, p, t as int, i));
                assert forall|k: int| #[trigger] seen(c, j, p + 1, k, i) implies weight(c, t as int) <= weight(c, k) by {
                    if k != j {
                        assert(seen(c, j, p, k, i));
                    }
                }
            } else {
                assert(idxs.subrange(0, p + 1)[p] == x as usize);
                assert(idxs.subrange(0, p + 1).contains(x as usize));
                assert(seen(c, j, p + 1, j, i));
                assert forall|k: int| #[trigger] seen(c, j, p + 1, k, i) implies weight(c, j) <= weight(c, k) by {
                    if k != j {
                        assert(seen(c, j, p, k, i));
                        match top0[i] {
                            None => {},
                            Some(t) => {},
                        }
                    }
                }
            }
        }
    }
}

fn weight_exec(tc: &Testcase) -> (r: u128)
    ensures
        r as int == tc.input@.len() * match tc.exec_time_ns {
            Some(t) => t as int,
            None => 0,
        },
{
    let len = tc.input.bytes.len() as u128;
    let t: u128 = match tc.exec_time_ns {
        Some(t) => t as u128,
        None => 0,
    };
    assert(len * t <= 0xffff_ffff_ffff_ffff_ffff_ffff_ffff_ffffu128) by (nonlinear_arith)
        requires
            len <= 0xffff_ffff_ffff_ffffu128,
            t <= 0xffff_ffff_ffff_ffffu128,
    ;
    len * t
}

/// For each of the `map_len` map entries, a cheapest corpus entry (by
/// length times execution time) among those that reached it; the first
/// such entry on ties, none where no entry reached it.
pub fn top_rated(corpus: &InMemoryCorpus, map_len: usize) -> (r: Vec<Option<usize>>)
    ensures
        r@.len() == map_len,
        top_rated_upto(*corpus, r@, corpus.entries@.len() as int, 0),
{
    let mut top: Vec<Option<usize>> = Vec::new();
    let mut topw: Vec<u128> = Vec::new();
    let mut i: usize = 0;
    while i < map_len
        invariant
            i <= map_len,
            top@.len() == i,
            topw@.len() == i,
            forall|x: int| 0 <= x < i ==> top@[x] is None,
        decreases map_len - i,
    {
        top.push(None);
        topw.push(0);
        i = i + 1;
    }
    let n = corpus.entries.len();
    let mut j: usize = 0;
    while j < n
        invariant
            n == corpus.entries@.len(),
            j <= n,
            top@.len() == map_len,
            topw@.len() == map_len,
            top_rated_upto(*corpus, top@, j as int, 0),
            forall|x: int| 0 <= x < map_len ==> (#[trigger] top@[x] matches Some(t) ==> 0 <= t < n
                && topw@[x] as int == weight(*corpus, t as int)),
        decreases n - j,
    {
        match &corpus.entries[j] {
            None => {
                proof {
                    lemma_top_same(*corpus, top@, j as int, 0, j + 1, 0);
                }
            },
            Some(tc) => {
                let w = weight_exec(tc);
                let idxs = &tc.indexes;
                let mut p: usize = 0;
                while p < idxs.len()
                    invariant
                        n == corpus.entries@.len(),
                        j < n,
                        corpus.entries@[j as int] == Some(*tc),
                        w as int == weight(*corpus, j as int),
                        idxs@ == tc.indexes@,
                        p <= idxs@.len(),
                        top@.len() == map_len,
                        topw@.len() == map_len,
                        top_rated_upto(*corpus, top@, j as int, p as int),
                        forall|x: int| 0 <= x < map_len ==> (#[trigger] top@[x] matches Some(t) ==> 0 <= t < n
                            && topw@[x] as int == weight(*corpus, t as int)),
                    decreases idxs@.len() - p,
                {
                    let x = idxs[p];
                    let ghost top0 = top@;
                    if x < map_len {
                        let take = match top[x] {
                            None => true,
                            Some(_) => w < topw[x],
                        };
                        if take {
                            top.set(x, Some(j));
                            topw.set(x, w);
                        }
                    }
                    proof {
                        lemma_top_step(*corpus, top0, top@, j as int, p as int, x as int);
                    }
                    p = p + 1;
                }
                proof {
                    assert(idxs@.subrange(0, p as int) =~= idxs@);
                    lemma_top_same(*corpus, top@, j as int, p as int, j + 1, 0);
                }
            },
        }
        j = j + 1;
    }
    top
}

/// Evaluates one execution of `input`, whose run left the coverage `map`
/// and ended with `exit_kind` after `exec_time_ns` nanoseconds. Counts the
/// execution; always runs both the feedback (coverage) and the objective
/// (a crash). A solution goes to the solutions, else an
/// interesting input goes to the corpus, else it is discarded. Returns
/// where it went and, unless discarded, its index there.
pub fn evaluate_execution(
    state: &mut StdState,
    feedback: &mut MaxMapFeedback,
    input: BytesInput,
    map: &[u8],
    exit_kind: ExitKind,
    exec_time_ns: u64,
) -> (r: (ExecuteInputResult, usize))
    requires
        map@.len() == old(state).feedback_states.history_map@.len(),
        old(state).executions < usize::MAX,
        old(state).corpus.entries@.len() < usize::MAX,
        old(state).solutions.entries@.len() < usize::MAX,
    ensures
        final(state).executions == old(state).executions + 1,
        final(state).feedback_states.history_map@ == pointwise_max(
            old(state).feedback_states.history_map@,
            map@,
        ),
        final(state).rand == old(state).rand,
        final(state).max_size == old(state).max_size,
        final(state).corpus.current == old(state).corpus.current,
        (exit_kind == ExitKind::Crash) <==> r.0 == ExecuteInputResult::Solution,
        r.0 == ExecuteInputResult::Solution ==> {
            &&& r.1 == old(state).solutions.entries@.len()
            &&& final(state).solutions.inputs() == old(state).solutions.inputs().push(Some(input@))
            &&& final(state).corpus == old(state).corpus
        },
        r.0 == ExecuteInputResult::Corpus ==> {
            &&& r.1 == old(state).corpus.entries@.len()
            &&& final(state).corpus.inputs() == old(state).corpus.inputs().push(Some(input@))
            &&& final(state).solutions == old(state).solutions
        },
        r.0 == ExecuteInputResult::Discarded ==> final(state).corpus == old(state).corpus
            && final(state).solutions == old(state).solutions,
        r.0 != ExecuteInputResult::Solution ==> (r.0 == ExecuteInputResult::Corpus <==> exists|
            i: int,
        |
            0 <= i < map@.len() && #[trigger] crate::feedbacks::novel_at(
                old(state).feedback_states.history_map@,
                map@,
                i,
                old(feedback).indexes,
            )),
        old(state).corpus.entries@.len() <= final(state).corpus.entries@.len(),
        final(state).corpus.entries@.subrange(0, old(state).corpus.entries@.len() as int)
            == old(state).corpus.entries@,
{
    state.executions = state.executions + 1;
    let interesting = feedback.is_interesting(&mut state.feedback_states, map);
    let objective = crash_feedback(exit_kind);
    if objective {
        let tc = Testcase::new(input);
        let ghost before = state.solutions.entries@;
        let idx = state.solutions.add(tc);
        assert(state.solutions.inputs() =~= old(state).solutions.inputs().push(Some(input@)));
        assert(state.corpus.entries@.subrange(0, old(state).corpus.entries@.len() as int)
            =~= old(state).corpus.entries@);
        (ExecuteInputResult::Solution, idx)
    } else if interesting {
        let mut tc = Testcase::new(input);
        tc.exec_time_ns = Some(exec_time_ns);
        tc.novelties = feedback.novelties.clone();
        tc.indexes = hit_indexes(map);
        let idx = state.corpus.add(tc);
        assert(state.corpus.inputs() =~= old(state).corpus.inputs().push(Some(input@)));
        assert(state.corpus.entries@.subrange(0, old(state).corpus.entries@.len() as int)
            =~= old(state).corpus.entries@);
        (ExecuteInputResult::Corpus, idx)
    } else {
        assert(state.corpus.entries@.subrange(0, old(state).corpus.entries@.len() as int)
            =~= old(state).corpus.entries@);
        (ExecuteInputResult::Discarded, 0)
    }
}

/// `fav` marks exactly the corpus entries that are top rated for some of
/// the first `map_len` map entries.
pub open spec fn favored_set(c: InMemoryCorpus, map_len: nat, fav: Seq<bool>) -> bool {
    exists|top: Seq<Option<usize>>|
        #![trigger top_rated_upto(c, top, c.entries@.len() as int, 0)]
        top.len() == map_len && top_rated_upto(c, top, c.entries@.len() as int, 0) && fav.len()
            == c.entries@.len() && forall|j: int|
            0 <= j < fav.len() ==> (#[trigger] fav[j] <==> top.contains(Some(j as usize)))
}

/// Prefers small and fast corpus entries: an entry is favored when it is
/// the cheapest (length times execution time) to reach some map entry.
/// Favored entries are picked 95 times out of 100; the favored set is
/// recomputed whenever the corpus has grown.
#[derive(Debug)]
pub struct IndexesLenTimeMinimizerCorpusScheduler {
    pub map_len: usize,
    pub favored: Vec<bool>,
}

impl IndexesLenTimeMinimizerCorpusScheduler {
    /// A scheduler for coverage maps of `map_len` entries.
    pub fn new(map_len: usize) -> (r: IndexesLenTimeMinimizerCorpusScheduler)
        ensures
            r.map_len == map_len,
            r.favored@.len() == 0,
    {
        IndexesLenTimeMinimizerCorpusScheduler { map_len, favored: Vec::new() }
    }

    /// Recomputes the favored entries of `corpus`.
    pub fn update_favored(&mut self, corpus: &InMemoryCorpus)
        ensures
            final(self).map_len == old(self).map_len,
            favored_set(*corpus, old(self).map_len as nat, final(self).favored@),
    {
        let top = top_rated(corpus, self.map_len);
        let n = corpus.entries.len();
        let mut fav: Vec<bool> = Vec::new();
        let mut j: usize = 0;
        while j < n
            invariant
                n == corpus.entries@.len(),
                j <= n,
                fav@.len() == j,
                forall|a: int| 0 <= a < j ==> (#[trigger] fav@[a] <==> top@.contains(Some(a as usize))),
            decreases n - j,
        {
            let mut found = false;
            let mut i: usize = 0;
            while i < top.len()
                invariant
                    i <= top@.len(),
                    found <==> exists|b: int| 0 <= b < i && #[trigger] top@[b] == Some(j),
                decreases top@.len() - i,
            {
                if top[i] == Some(j) {
                    found = true;
                }
                i = i + 1;
            }
            fav.push(found);
            proof {
                assert(fav@[j as int] == found);
                assert forall|a: int| 0 <= a < j + 1 implies (#[trigger] fav@[a] <==> top@.contains(Some(a as usize))) by {
                    if a == j {
                        if top@.contains(Some(j)) {
                            let b = choose|b: int| 0 <= b < top@.len() && #[trigger] top@[b] == Some(j);
                        }
                    }
                }
            }
            j = j + 1;
        }
        self.favored = fav;
        assert(favored_set(*corpus, self.map_len as nat, self.favored@)) by {
            assert(top@.len() == self.map_len && top_rated_upto(*corpus, top@, corpus.entries@.len() as int, 0));
        }
    }

    /// The next corpus entry, which becomes current: when the first draw
    /// is below 95 and some present entry is favored, a favored entry picked
    /// at random; otherwise the one after the current entry, wrapping.
    /// `EmptyOptional` on an empty corpus; `IllegalState` if the entry
    /// picked was removed.
    pub fn next(&mut self, state: &mut StdState) -> (r: Result<usize, Error>)
        ensures
            old(state).corpus.entries@.len() == 0 ==> r is Err && r->Err_0 is EmptyOptional,
            old(state).corpus.entries@.len() > 0 && (forall|j: int|
                0 <= j < old(state).corpus.entries@.len() ==> #[trigger] old(state).corpus.has(j))
                ==> r is Ok,
            r matches Ok(idx) ==> final(state).corpus.current == Some(idx) && old(state).corpus.has(
                idx as int,
            ),
            final(state).corpus.entries@ == old(state).corpus.entries@,
            final(self).favored@.len() == old(state).corpus.entries@.len() || old(
                state).corpus.entries@.len() == 0,
            r matches Ok(idx) ==> (old(state).rand.x_state % 100 < 95 && (exists|j: int|
                0 <= j < final(self).favored@.len() && #[trigger] final(self).favored@[j]
                    && old(state).corpus.has(j)) ==> final(self).favored@[idx as int]),
    {
        let count = state.corpus.count();
        if count == 0 {
            return Err(Error::EmptyOptional(String::from_str("the corpus is empty")));
        }
        if self.favored.len() != count {
            self.update_favored(&state.corpus);
        }
        let ghost fav = self.favored@;
        let mut favs: Vec<usize> = Vec::new();
        let mut j: usize = 0;
        while j < self.favored.len()
            invariant
                self.favored@ == fav,
                fav.len() == count,
                count == state.corpus.entries@.len(),
                j <= fav.len(),
                forall|a: int| 0 <= a < favs@.len() ==> #[trigger] favs@[a] < j && fav[favs@[a] as int]
                    && state.corpus.has(favs@[a] as int),
                forall|b: int| 0 <= b < j && fav[b] && state.corpus.has(b) ==> favs@.contains(b as usize),
            decreases fav.len() - j,
        {
            if self.favored[j] && state.corpus.entries[j].is_some() {
                let ghost before = favs@;
                favs.push(j);
                proof {
                    assert(favs@[favs@.len() - 1] == j);
                    assert forall|b: int| 0 <= b < j + 1 && fav[b] && state.corpus.has(b) implies favs@.contains(b as usize) by {
                        if b < j {
                            let w = choose|w: int| 0 <= w < before.len() && #[trigger] before[w] == b as usize;
                            assert(favs@[w] == before[w]);
                        } else {
                            assert(favs@[favs@.len() - 1] == b as usize);
                        }
                    }
                }
            }
            j = j + 1;
        }
        let draw = state.rand.below(100);
        let idx = if draw < 95 && favs.len() > 0 {
            let k = state.rand.below(favs.len() as u64) as usize;
            favs[k]
        } else {
            match state.corpus.current() {
                None => 0,
                Some(c) => if c < count - 1 { c + 1 } else { 0 },
            }
        };
        proof {
            if draw < 95 && (exists|b: int| 0 <= b < fav.len() && #[trigger] fav[b] && old(state).corpus.has(b)) {
                let b = choose|b: int| 0 <= b < fav.len() && #[trigger] fav[b] && old(state).corpus.has(b);
                assert(favs@.contains(b as usize));
                assert(favs@.len() > 0);
            }
        }
        state.corpus.set_current(idx)?;
        Ok(idx)
    }
}

/// The index after the current one in a corpus of `count` entries, wrapping;
/// 0 when none is current.
pub open spec fn queue_next(current: Option<usize>, count: int) -> int {
    match current {
        None => 0,
        Some(c) => if c + 1 < count {
            c + 1
        } else {
            0
        },
    }
}

/// Picks corpus entries in turn: the one after the current entry, wrapping
/// around, or the first one when none is current; it becomes current.
#[derive(Debug)]
pub struct QueueCorpusScheduler {}

impl QueueCorpusScheduler {
    /// Creates a new [`QueueCorpusScheduler`].
    pub fn new() -> (r: QueueCorpusScheduler) {
        QueueCorpusScheduler {}
    }

    /// The next index, or `EmptyOptional` on an empty corpus; `IllegalState`
    /// if the entry there was removed.
    pub fn next(&self, state: &mut StdState) -> (r: Result<usize, Error>)
        ensures
            old(state).corpus.entries@.len() == 0 ==> r is Err && r->Err_0 is EmptyOptional,
            old(state).corpus.entries@.len() > 0 ==> (r is Ok <==> old(state).corpus.has(
                queue_next(old(state).corpus.current, old(state).corpus.entries@.len() as int),
            )),
            r matches Ok(idx) ==> {
                &&& idx as int == queue_next(old(state).corpus.current, old(state).corpus.entries@.len() as int)
                &&& final(state).corpus.current == Some(idx)
                &&& old(state).corpus.has(idx as int)
            },
            final(state).corpus.entries@ == old(state).corpus.entries@,
            final(state).rand == old(state).rand,
    {
        let count = state.corpus.count();
        if count == 0 {
            return Err(Error::EmptyOptional(String::from_str("the corpus is empty")));
        }
        let idx = match state.corpus.current() {
            None => 0,
            Some(c) => if c < count - 1 { c + 1 } else { 0 },
        };
        state.corpus.set_current(idx)?;
        Ok(idx)
    }
}

} // verus!
