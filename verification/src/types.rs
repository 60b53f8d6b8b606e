//! The catalogue's data: test identity and per-test metadata.

use crate::verdict::clone_opt_string;
use vstd::prelude::*;

verus! {

/// Identity of one discovered test: the judge-side content
/// fingerprint, and the answer literal when the judge exposed it
/// inline.
#[derive(Debug)]
pub struct DataId {
    pub hash: String,
    pub answer: Option<String>,
}

impl Clone for DataId {
    fn clone(&self) -> (r: Self)
        ensures
            r == *self,
    {
        DataId { hash: self.hash.clone(), answer: clone_opt_string(&self.answer) }
    }
}

/// Metadata of one discovered test, in discovery order.  `input` is
/// present only when the test was small enough for the judge to expose
/// it inline; absent, the content is fetched in chunks.
#[derive(Debug)]
pub struct TestMeta {
    pub data_id: DataId,
    pub input: Option<String>,
    pub size: usize,
    pub output_size: usize,
    pub compress_size: usize,
}

impl Clone for TestMeta {
    fn clone(&self) -> (r: Self)
        ensures
            r == *self,
    {
        TestMeta {
            data_id: self.data_id.clone(),
            input: clone_opt_string(&self.input),
            size: self.size,
            output_size: self.output_size,
            compress_size: self.compress_size,
        }
    }
}

} // verus!
