//! The orchestration state over one selected problem: the append-only
//! test catalogue, and the verdict cache the probes go through.
//!
//! The two driving loops — metadata discovery and chunked data fetch —
//! suspend on network work, so an outside driver runs them; every
//! decision they take stands here: which key a probe gets, which
//! fingerprints the generator must skip, how a verdict becomes a
//! catalogue entry, and how chunks become a test's content.

pub mod data;
pub mod meta;

use crate::cache::{Cache, StorageError};
use crate::problem::{problem_key_eq, Problem};
use crate::types::TestMeta;
use vstd::prelude::*;

verus! {

/// One problem's catalogue and cache.
pub struct Downloader {
    problem: Problem,
    data: Vec<TestMeta>,
    pub cache: Cache,
}

impl Downloader {
    /// The discovered tests, in discovery order.
    pub closed spec fn spec_data(&self) -> Seq<TestMeta> {
        self.data@
    }

    /// The selected problem.
    pub closed spec fn spec_problem(&self) -> Problem {
        self.problem
    }

    /// The verdict cache, as contracts see it.
    pub closed spec fn spec_cache(&self) -> Cache {
        self.cache
    }

    /// A fresh downloader: empty catalogue, empty cache, both owned by
    /// the selected problem.
    pub fn new(problem: Problem) -> (r: Self)
        ensures
            r.spec_data() == Seq::<TestMeta>::empty(),
            r.spec_problem() == problem,
            r.spec_cache().spec_problem() == problem,
            r.spec_cache().spec_map() == Map::<
                crate::cache::SubmitKey,
                crate::verdict::Verdict,
            >::empty(),
            r.spec_cache().wf(),
    {
        let cache = Cache::new(problem.clone());
        Downloader { problem, data: Vec::new(), cache }
    }

    pub fn len(&self) -> (r: usize)
        ensures
            r == self.spec_data().len(),
    {
        self.data.len()
    }

    pub fn is_empty(&self) -> (r: bool)
        ensures
            r == (self.spec_data().len() == 0),
    {
        self.data.len() == 0
    }

    pub fn problem(&self) -> (r: &Problem)
        ensures
            *r == self.spec_problem(),
    {
        &self.problem
    }

    /// The catalogue, for writing a snapshot.
    pub fn data(&self) -> (r: &Vec<TestMeta>)
        ensures
            r@ == self.spec_data(),
    {
        &self.data
    }

    /// Replaces the catalogue with a loaded snapshot, but only when
    /// the snapshot belongs to the selected problem; otherwise the
    /// load is rejected and the catalogue is untouched.
    pub fn load_meta(&mut self, problem: &Problem, data: Vec<TestMeta>) -> (r: Result<
        (),
        StorageError,
    >)
        ensures
            final(self).spec_problem() == old(self).spec_problem(),
            final(self).spec_cache() == old(self).spec_cache(),
            if problem_key_eq(&old(self).spec_problem(), problem) {
                r is Ok && final(self).spec_data() == data@
            } else {
                r is Err && final(self).spec_data() == old(self).spec_data()
            },
    {
        if self.problem.eq(problem) {
            self.data = data;
            Ok(())
        } else {
            Err(StorageError::Mismatch(self.problem.clone(), problem.clone()))
        }
    }
}

} // verus!
