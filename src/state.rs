//! The evolutionary state of a fuzzer: random source, corpora, metadata.
use vstd::prelude::*;
use crate::corpus::InMemoryCorpus;
use crate::feedbacks::MapFeedbackState;
use crate::observers::CmpValuesMetadata;
use crate::rands::StdRand;
use crate::tokens::Tokens;

verus! {

/// The default bound on the size of an input: 1 MiB.
pub const DEFAULT_MAX_SIZE: usize = 1048576;

/// Metadata attached to the state, one slot per kind of record.
#[derive(Debug)]
pub struct MetadataMap {
    pub tokens: Option<Tokens>,
    pub cmp_values: Option<CmpValuesMetadata>,
}

impl MetadataMap {
    /// A map without any record.
    pub fn new() -> (r: MetadataMap)
        ensures
            r.tokens is None,
            r.cmp_values is None,
    {
        MetadataMap { tokens: None, cmp_values: None }
    }

    /// Every token dictionary it holds is well formed.
    pub open spec fn wf(&self) -> bool {
        self.tokens matches Some(t) ==> t.wf()
    }
}

/// The state of one fuzzer process.
#[derive(Debug)]
pub struct StdState {
    pub rand: StdRand,
    pub executions: usize,
    pub start_time_ns: u64,
    pub corpus: InMemoryCorpus,
    pub solutions: InMemoryCorpus,
    pub metadata: MetadataMap,
    pub feedback_states: MapFeedbackState,
    pub max_size: usize,
}

impl StdState {
    /// A fresh state around the given random source and corpora.
    pub fn new(
        rand: StdRand,
        corpus: InMemoryCorpus,
        solutions: InMemoryCorpus,
        feedback_states: MapFeedbackState,
    ) -> (r: StdState)
        ensures
            r.rand == rand,
            r.corpus == corpus,
            r.solutions == solutions,
            r.feedback_states == feedback_states,
            r.executions == 0,
            r.max_size == DEFAULT_MAX_SIZE,
            r.metadata.tokens is None,
            r.metadata.cmp_values is None,
    {
        StdState {
            rand,
            executions: 0,
            start_time_ns: 0,
            corpus,
            solutions,
            metadata: MetadataMap::new(),
            feedback_states,
            max_size: DEFAULT_MAX_SIZE,
        }
    }
}

/// A state whose random source can be read and drawn from.
pub trait HasRand {
    spec fn rand_spec(&self) -> StdRand;

    fn rand(&self) -> (r: &StdRand)
        ensures
            *r == self.rand_spec(),
    ;

    fn rand_mut(&mut self) -> (r: &mut StdRand)
        ensures
            *r == old(self).rand_spec(),
            final(self).rand_spec() == *final(r),
    ;
}

impl HasRand for StdState {
    open spec fn rand_spec(&self) -> StdRand {
        self.rand
    }

    fn rand(&self) -> (r: &StdRand) {
        &self.rand
    }

    fn rand_mut(&mut self) -> (r: &mut StdRand) {
        &mut self.rand
    }
}

/// A fuzzer state: the whole of what a restarted worker needs to resume.
pub trait State {}

impl State for StdState {}

/// A state that owns a corpus of interesting inputs.
pub trait HasCorpus {
    spec fn corpus_spec(&self) -> InMemoryCorpus;

    fn corpus(&self) -> (r: &InMemoryCorpus)
        ensures
            *r == self.corpus_spec(),
    ;

    fn corpus_mut(&mut self) -> (r: &mut InMemoryCorpus)
        ensures
            *r == old(self).corpus_spec(),
            final(self).corpus_spec() == *final(r),
    ;
}

impl HasCorpus for StdState {
    open spec fn corpus_spec(&self) -> InMemoryCorpus {
        self.corpus
    }

    fn corpus(&self) -> (r: &InMemoryCorpus) {
        &self.corpus
    }

    fn corpus_mut(&mut self) -> (r: &mut InMemoryCorpus) {
        &mut self.corpus
    }
}

/// A state that owns the corpus of solutions (inputs that met the objective).
pub trait HasSolutions {
    spec fn solutions_spec(&self) -> InMemoryCorpus;

    fn solutions(&self) -> (r: &InMemoryCorpus)
        ensures
            *r == self.solutions_spec(),
    ;

    fn solutions_mut(&mut self) -> (r: &mut InMemoryCorpus)
        ensures
            *r == old(self).solutions_spec(),
            final(self).solutions_spec() == *final(r),
    ;
}

impl HasSolutions for StdState {
    open spec fn solutions_spec(&self) -> InMemoryCorpus {
        self.solutions
    }

    fn solutions(&self) -> (r: &InMemoryCorpus) {
        &self.solutions
    }

    fn solutions_mut(&mut self) -> (r: &mut InMemoryCorpus) {
        &mut self.solutions
    }
}

/// A state that carries metadata records.
pub trait HasMetadata {
    spec fn metadata_spec(&self) -> MetadataMap;

    fn metadata(&self) -> (r: &MetadataMap)
        ensures
            *r == self.metadata_spec(),
    ;

    fn metadata_mut(&mut self) -> (r: &mut MetadataMap)
        ensures
            *r == old(self).metadata_spec(),
            final(self).metadata_spec() == *final(r),
    ;
}

impl HasMetadata for StdState {
    open spec fn metadata_spec(&self) -> MetadataMap {
        self.metadata
    }

    fn metadata(&self) -> (r: &MetadataMap) {
        &self.metadata
    }

    fn metadata_mut(&mut self) -> (r: &mut MetadataMap) {
        &mut self.metadata
    }
}

/// A state that counts the executions of the target.
pub trait HasExecutions {
    spec fn executions_spec(&self) -> usize;

    fn executions(&self) -> (r: &usize)
        ensures
            *r == self.executions_spec(),
    ;

    fn executions_mut(&mut self) -> (r: &mut usize)
        ensures
            *r == old(self).executions_spec(),
            final(self).executions_spec() == *final(r),
    ;
}

impl HasExecutions for StdState {
    open spec fn executions_spec(&self) -> usize {
        self.executions
    }

    fn executions(&self) -> (r: &usize) {
        &self.executions
    }

    fn executions_mut(&mut self) -> (r: &mut usize) {
        &mut self.executions
    }
}

/// A state that remembers when fuzzing started, in nanoseconds.
pub trait HasStartTime {
    spec fn start_time_spec(&self) -> u64;

    fn start_time(&self) -> (r: &u64)
        ensures
            *r == self.start_time_spec(),
    ;

    fn start_time_mut(&mut self) -> (r: &mut u64)
        ensures
            *r == old(self).start_time_spec(),
            final(self).start_time_spec() == *final(r),
    ;
}

impl HasStartTime for StdState {
    open spec fn start_time_spec(&self) -> u64 {
        self.start_time_ns
    }

    fn start_time(&self) -> (r: &u64) {
        &self.start_time_ns
    }

    fn start_time_mut(&mut self) -> (r: &mut u64) {
        &mut self.start_time_ns
    }
}

/// A state with a bound on the size of inputs.
pub trait HasMaxSize {
    spec fn max_size_spec(&self) -> usize;

    fn max_size(&self) -> (r: usize)
        ensures
            r == self.max_size_spec(),
    ;

    fn set_max_size(&mut self, max_size: usize)
        ensures
            final(self).max_size_spec() == max_size,
    ;
}

impl HasMaxSize for StdState {
    open spec fn max_size_spec(&self) -> usize {
        self.max_size
    }

    fn max_size(&self) -> (r: usize) {
        self.max_size
    }

    fn set_max_size(&mut self, max_size: usize) {
        self.max_size = max_size;
    }
}

/// A state that keeps the persistent data of its feedbacks.
pub trait HasFeedbackStates {
    spec fn feedback_states_spec(&self) -> MapFeedbackState;

    fn feedback_states(&self) -> (r: &MapFeedbackState)
        ensures
            *r == self.feedback_states_spec(),
    ;

    fn feedback_states_mut(&mut self) -> (r: &mut MapFeedbackState)
        ensures
            *r == old(self).feedback_states_spec(),
            final(self).feedback_states_spec() == *final(r),
    ;
}

impl HasFeedbackStates for StdState {
    open spec fn feedback_states_spec(&self) -> MapFeedbackState {
        self.feedback_states
    }

    fn feedback_states(&self) -> (r: &MapFeedbackState) {
        &self.feedback_states
    }

    fn feedback_states_mut(&mut self) -> (r: &mut MapFeedbackState) {
        &mut self.feedback_states
    }
}

} // verus!
