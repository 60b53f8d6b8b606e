//! Metadata discovery: one sequential step per new test.
//!
//! Each step submits one probe keyed by the next test index, decodes
//! its verdict into a catalogue entry and appends it.  The generator's
//! ignore list must equal exactly the fingerprints of the tests
//! discovered so far — the list grows by one fingerprint per step, so
//! the steps cannot run concurrently.

use super::Downloader;
use crate::cache::SubmitKey;
use crate::encoding::probe::{self, decode_err_ok, decoded_meta_ok, Meta};
use crate::types::{DataId, TestMeta};
use crate::verdict::Verdict;
use vstd::prelude::*;

verus! {

/// What a discovery step failed at.
#[derive(Debug)]
pub enum Kind {
    /// Building the probe template failed.
    Build(String),
    /// Rendering the probe source failed.
    Generate(String),
    /// Dispatching the probe failed.
    Submit(String),
    /// Polling the submission failed.
    GetResult(crate::judge::Error),
    /// The verdict's metadata record would not decode.
    Decode(probe::Error),
}

/// Failure of one discovery step, naming the test index it was for.
#[derive(Debug)]
pub struct Error {
    pub id: usize,
    pub kind: Kind,
}

impl Downloader {
    /// The cache key of the next metadata probe: the 1-based index of
    /// the test about to be discovered, at offset 0.
    pub fn meta_key(&self) -> (r: SubmitKey)
        requires
            self.spec_data().len() < usize::MAX,
        ensures
            r.test == self.spec_data().len() + 1,
            r.time == 0,
    {
        SubmitKey { test: self.data.len() + 1, time: 0 }
    }

    /// The fingerprints the next metadata probe must skip: exactly
    /// those of every test discovered so far, in discovery order.
    /// Before generating probe `k + 1` this is the fingerprints of
    /// tests `0 ..= k`, nothing else.
    pub fn meta_ignore(&self) -> (r: Vec<DataId>)
        ensures
            r@ == self.spec_data().map_values(|m: TestMeta| m.data_id),
    {
        let mut r: Vec<DataId> = Vec::new();
        let n = self.data.len();
        let mut i: usize = 0;
        while i < n
            invariant
                i <= n,
                n == self.spec_data().len(),
                r@ =~= self.spec_data().subrange(0, i as int).map_values(|m: TestMeta| m.data_id),
            decreases n - i,
        {
            r.push(self.data[i].data_id.clone());
            proof {
                assert(r@ =~= self.spec_data().subrange(0, i as int + 1).map_values(
                    |m: TestMeta| m.data_id,
                ));
            }
            i = i + 1;
        }
        proof {
            assert(self.spec_data().subrange(0, n as int) =~= self.spec_data());
        }
        r
    }

    /// Applies one discovery step: decodes the probe's verdict into a
    /// catalogue entry, appends it, and hands back its fingerprint for
    /// the generator's ignore list.  A verdict that will not decode
    /// leaves the catalogue untouched and names the failing test.
    pub fn meta_step(&mut self, message: Verdict) -> (r: Result<DataId, Error>)
        ensures
            final(self).spec_problem() == old(self).spec_problem(),
            final(self).spec_cache() == old(self).spec_cache(),
            match r {
                Ok(id) => final(self).spec_data().len() == old(self).spec_data().len() + 1
                    && final(self).spec_data() == old(self).spec_data().push(final(self).spec_data().last())
                    && decoded_meta_ok(final(self).spec_data().last(), &message)
                    && id == final(self).spec_data().last().data_id,
                Err(e) => final(self).spec_data() == old(self).spec_data()
                    && e.id == old(self).spec_data().len() && match e.kind {
                    Kind::Decode(pe) => decode_err_ok(pe, message.output@),
                    _ => false,
                },
            },
    {
        let id = self.data.len();
        match Meta::decode(message) {
            Ok(m) => {
                let fingerprint = m.data_id.clone();
                self.data.push(m);
                Ok(fingerprint)
            },
            Err(e) => Err(Error { id, kind: Kind::Decode(e) }),
        }
    }
}

/// Monotone ignore list: one discovery step extends the fingerprint
/// list by exactly the new test's fingerprint, keeping all earlier
/// ones in place — so before generating probe `k + 1` the list reads
/// `fingerprint(0), ..., fingerprint(k)` exactly.
pub proof fn lemma_ignore_monotone(catalogue: Seq<TestMeta>, m: TestMeta)
    ensures
        catalogue.push(m).map_values(|t: TestMeta| t.data_id) =~= catalogue.map_values(
            |t: TestMeta| t.data_id,
        ).push(m.data_id),
{
}

} // verus!
