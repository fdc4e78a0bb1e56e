//! Testcases and the in-memory corpus that indexes them.
use vstd::prelude::*;
use crate::error::Error;
use crate::inputs::BytesInput;

verus! {

/// An input together with what the fuzzer learnt when running it.
#[derive(Debug, Clone)]
pub struct Testcase {
    pub input: BytesInput,
    /// Execution time of the input, in nanoseconds, once it was measured.
    pub exec_time_ns: Option<u64>,
    /// Coverage-map indices that this input reached first.
    pub novelties: Vec<usize>,
    /// Coverage-map indices that this input reached.
    pub indexes: Vec<usize>,
    /// Executions since the last interesting input, when it was added.
    pub executions: usize,
}

impl Testcase {
    /// A testcase for an input that was never run.
    pub fn new(input: BytesInput) -> (r: Testcase)
        ensures
            r.input@ == input@,
            r.exec_time_ns is None,
            r.novelties@.len() == 0,
            r.indexes@.len() == 0,
            r.executions == 0,
    {
        Testcase { input, exec_time_ns: None, novelties: Vec::new(), indexes: Vec::new(), executions: 0 }
    }

    /// The input of this testcase.
    pub fn input(&self) -> (r: &BytesInput)
        ensures
            r == &self.input,
    {
        &self.input
    }
}

/// An ordered collection of testcases indexed by dense integers.
/// A removed entry leaves an empty slot: indices are never reused.
#[derive(Debug)]
pub struct InMemoryCorpus {
    pub entries: Vec<Option<Testcase>>,
    pub current: Option<usize>,
}

impl InMemoryCorpus {
    /// The inputs held at each index, `None` where an entry was removed.
    pub open spec fn inputs(&self) -> Seq<Option<Seq<u8>>> {
        self.entries@.map_values(|e: Option<Testcase>| match e {
            Some(t) => Some(t.input@),
            None => None,
        })
    }

    /// Whether `idx` names a testcase that is present.
    pub open spec fn has(&self, idx: int) -> bool {
        0 <= idx < self.entries@.len() && self.entries@[idx] is Some
    }

    /// An empty corpus with no current entry.
    pub fn new() -> (r: InMemoryCorpus)
        ensures
            r.entries@.len() == 0,
            r.current is None,
    {
        InMemoryCorpus { entries: Vec::new(), current: None }
    }

    /// The number of indices handed out so far.
    pub fn count(&self) -> (r: usize)
        ensures
            r == self.entries@.len(),
    {
        self.entries.len()
    }

    /// Appends a testcase and returns its index.
    pub fn add(&mut self, testcase: Testcase) -> (r: usize)
        requires
            old(self).entries@.len() < usize::MAX,
        ensures
            r == old(self).entries@.len(),
            final(self).entries@ == old(self).entries@.push(Some(testcase)),
            final(self).current == old(self).current,
    {
        let idx = self.entries.len();
        self.entries.push(Some(testcase));
        idx
    }

    /// The testcase at `idx`, or `KeyNotFound` if there is none.
    pub fn get(&self, idx: usize) -> (r: Result<&Testcase, Error>)
        ensures
            self.has(idx as int) <==> r is Ok,
            r is Ok ==> Some(*r->Ok_0) == self.entries@[idx as int],
            r is Err ==> r->Err_0 is KeyNotFound,
    {
        if idx < self.entries.len() {
            match &self.entries[idx] {
                Some(t) => Ok(t),
                None => Err(Error::KeyNotFound(String::from_str("no testcase at this index"))),
            }
        } else {
            Err(Error::KeyNotFound(String::from_str("index out of range")))
        }
    }

    /// Overwrites the testcase at `idx` and returns the previous one.
    pub fn replace(&mut self, idx: usize, testcase: Testcase) -> (r: Result<Testcase, Error>)
        ensures
            old(self).has(idx as int) <==> r is Ok,
            r is Ok ==> Some(r->Ok_0) == old(self).entries@[idx as int] && final(self).entries@
                == old(self).entries@.update(idx as int, Some(testcase)),
            r is Err ==> r->Err_0 is KeyNotFound && final(self).entries@ == old(self).entries@,
            final(self).current == old(self).current,
    {
        if idx < self.entries.len() && self.entries[idx].is_some() {
            let prev = self.entries.remove(idx);
            self.entries.insert(idx, Some(testcase));
            assert(self.entries@ =~= old(self).entries@.update(idx as int, Some(testcase)));
            match prev {
                Some(t) => Ok(t),
                None => Err(Error::KeyNotFound(String::from_str("no testcase at this index"))),
            }
        } else {
            Err(Error::KeyNotFound(String::from_str("no testcase at this index")))
        }
    }

    /// Removes the testcase at `idx`; the index stays taken.
    pub fn remove(&mut self, idx: usize) -> (r: Result<Testcase, Error>)
        ensures
            old(self).has(idx as int) <==> r is Ok,
            r is Ok ==> Some(r->Ok_0) == old(self).entries@[idx as int] && final(self).entries@
                == old(self).entries@.update(idx as int, None),
            r is Err ==> r->Err_0 is KeyNotFound && final(self).entries@ == old(self).entries@,
            final(self).current == old(self).current,
    {
        if idx < self.entries.len() && self.entries[idx].is_some() {
            let prev = self.entries.remove(idx);
            self.entries.insert(idx, None);
            assert(self.entries@ =~= old(self).entries@.update(idx as int, None));
            match prev {
                Some(t) => Ok(t),
                None => Err(Error::KeyNotFound(String::from_str("no testcase at this index"))),
            }
        } else {
            Err(Error::KeyNotFound(String::from_str("no testcase at this index")))
        }
    }

    /// The index the fuzzer is working on.
    pub fn current(&self) -> (r: Option<usize>)
        ensures
            r == self.current,
    {
        self.current
    }

    /// Selects the index the fuzzer works on; `IllegalState` if no testcase is there.
    pub fn set_current(&mut self, idx: usize) -> (r: Result<(), Error>)
        ensures
            old(self).has(idx as int) <==> r is Ok,
            r is Ok ==> final(self).current == Some(idx),
            r is Err ==> r->Err_0 is IllegalState && final(self).current == old(self).current,
            final(self).entries@ == old(self).entries@,
    {
        if idx < self.entries.len() && self.entries[idx].is_some() {
            self.current = Some(idx);
            Ok(())
        } else {
            Err(Error::IllegalState(String::from_str("no testcase at this index")))
        }
    }
}

} // verus!
