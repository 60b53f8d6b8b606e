//! Chunked data fetch: planning a test's chunk probes and decoding
//! what they leaked.
//!
//! A test whose input the judge exposed inline needs no probes.  Any
//! other test's output is fetched in fixed-size chunks, one probe per
//! chunk, keyed by the chunk's literal offset: the keys fix the
//! reassembly order, whatever order the probes resolve in.

use super::Downloader;
use crate::cache::{self, SubmitKey};
use crate::config::BLOCK;
use crate::encoding::gzip::{self, b64_decode_of, chunks_of, gunzip_of, lemma_chunks_count, lemma_cover_count_unique, Decoder};
use crate::text::{spec_trim, trim};
use crate::types::{DataId, TestMeta};
use vstd::prelude::*;
use vstd::utf8::encode_utf8;

verus! {

/// Why one test of a fetched range failed; other tests of the range
/// are unaffected.
#[derive(Debug)]
pub enum Error {
    /// Building the probe template failed.
    Build(String),
    /// A chunk probe of the test failed to submit or resolve.
    Submit(cache::Error),
    /// The named test's chunks would not decode.
    Decode(usize, gzip::Error),
}

/// The chunk payloads, each trimmed of surrounding whitespace, joined
/// in offset order, as bytes.
pub open spec fn trimmed_bytes(outs: Seq<String>) -> Seq<u8>
    decreases outs.len(),
{
    if outs.len() == 0 {
        Seq::empty()
    } else {
        trimmed_bytes(outs.drop_last()) + encode_utf8(spec_trim(outs.last()@))
    }
}

impl Downloader {
    /// Whether the test's content must be fetched in chunks: true
    /// exactly where the judge exposed no inline input.
    pub fn needs_fetch(&self, index: usize) -> (r: bool)
        requires
            index < self.spec_data().len(),
        ensures
            r == (self.spec_data()[index as int].input is None),
    {
        self.data[index].input.is_none()
    }

    /// The cache keys of the test's chunk probes: offsets 0, BLOCK,
    /// 2·BLOCK, ... — as many as cover the test's encoded output and
    /// no more.
    pub fn chunk_keys(&self, index: usize) -> (r: Vec<SubmitKey>)
        requires
            index < self.spec_data().len(),
        ensures
            forall|i: int|
                0 <= i < r@.len() ==> (#[trigger] r@[i]).test == index + 1 && r@[i].time == i * (
                BLOCK as int),
            r@.len() * (BLOCK as int) >= self.spec_data()[index as int].output_size as int,
            r@.len() > 0 ==> (r@.len() - 1) * (BLOCK as int) < self.spec_data()[index as int].output_size as int,
            r@.len() == 0 ==> self.spec_data()[index as int].output_size == 0,
    {
        let output_size = self.data[index].output_size;
        let catalogue_len = self.data.len();
        assert(index < catalogue_len);
        let test_no = index + 1;
        let mut r: Vec<SubmitKey> = Vec::new();
        let mut offset: usize = 0;
        while offset < output_size
            invariant_except_break
                offset as int == r@.len() * (BLOCK as int),
            invariant
                test_no == index + 1,
                forall|i: int|
                    0 <= i < r@.len() ==> (#[trigger] r@[i]).test == index + 1 && r@[i].time == i
                        * (BLOCK as int),
                r@.len() > 0 ==> (r@.len() - 1) * (BLOCK as int) < output_size as int,
                r@.len() == 0 ==> offset == 0,
            ensures
                r@.len() * (BLOCK as int) >= output_size as int,
                forall|i: int|
                    0 <= i < r@.len() ==> (#[trigger] r@[i]).test == index + 1 && r@[i].time == i
                        * (BLOCK as int),
                r@.len() > 0 ==> (r@.len() - 1) * (BLOCK as int) < output_size as int,
                r@.len() == 0 ==> output_size == 0,
            decreases output_size as int - offset as int + BLOCK as int,
        {
            r.push(SubmitKey { test: test_no, time: offset });
            proof {
                assert((r@.len() - 1) * (BLOCK as int) == offset as int);
            }
            if BLOCK > usize::MAX - offset {
                proof {
                    assert(r@.len() * (BLOCK as int) == offset as int + BLOCK as int);
                }
                break ;
            }
            offset = offset + BLOCK;
        }
        r
    }

    /// The fingerprints a data-probe generator starts from: every test
    /// outside the fetched range `[begin, end)`, in catalogue order;
    /// tests inside the range are added one by one as they finish.
    pub fn data_ignore(&self, begin: usize, end: usize) -> (r: Vec<DataId>)
        requires
            begin <= end <= self.spec_data().len(),
        ensures
            r@ == self.spec_data().subrange(0, begin as int).map_values(|m: TestMeta| m.data_id)
                + self.spec_data().subrange(end as int, self.spec_data().len() as int).map_values(
                |m: TestMeta| m.data_id,
            ),
    {
        let ghost front = self.spec_data().subrange(0, begin as int).map_values(
            |m: TestMeta| m.data_id,
        );
        let ghost back = self.spec_data().subrange(end as int, self.spec_data().len() as int).map_values(
            |m: TestMeta| m.data_id,
        );
        let mut r: Vec<DataId> = Vec::new();
        let mut i: usize = 0;
        while i < begin
            invariant
                i <= begin <= self.spec_data().len(),
                front == self.spec_data().subrange(0, begin as int).map_values(
                    |m: TestMeta| m.data_id,
                ),
                r@ =~= self.spec_data().subrange(0, i as int).map_values(|m: TestMeta| m.data_id),
            decreases begin - i,
        {
            r.push(self.data[i].data_id.clone());
            proof {
                assert(r@ =~= self.spec_data().subrange(0, i as int + 1).map_values(
                    |m: TestMeta| m.data_id,
                ));
            }
            i = i + 1;
        }
        let n = self.data.len();
        let mut j: usize = end;
        while j < n
            invariant
                end <= j <= n,
                n == self.spec_data().len(),
                begin <= end,
                front == self.spec_data().subrange(0, begin as int).map_values(
                    |m: TestMeta| m.data_id,
                ),
                r@ =~= front + self.spec_data().subrange(end as int, j as int).map_values(
                    |m: TestMeta| m.data_id,
                ),
            decreases n - j,
        {
            r.push(self.data[j].data_id.clone());
            proof {
                assert(r@ =~= front + self.spec_data().subrange(end as int, j as int + 1).map_values(
                    |m: TestMeta| m.data_id,
                ));
            }
            j = j + 1;
        }
        proof {
            assert(r@ =~= front + back);
        }
        r
    }

    /// Reconstructs one test's content from its resolved chunk
    /// payloads, handed in offset order.  A test with an inline input
    /// returns that literal and reads no chunk.  Anything that fails
    /// names this test alone; sibling tests of the range are
    /// unaffected.
    pub fn decode_test(&self, index: usize, outputs: &Vec<String>) -> (r: Result<String, Error>)
        requires
            index < self.spec_data().len(),
        ensures
            match r {
                Ok(v) => match self.spec_data()[index as int].input {
                    Some(p) => v == p,
                    None => b64_decode_of(trimmed_bytes(outputs@)) is Some && gunzip_of(
                        b64_decode_of(trimmed_bytes(outputs@)).unwrap(),
                    ) == Some(v@),
                },
                Err(e) => self.spec_data()[index as int].input is None && match e {
                    Error::Decode(i, ge) => i == index && match ge {
                        gzip::Error::Decode(_) => b64_decode_of(trimmed_bytes(outputs@)) is None,
                        gzip::Error::Decompress(_) => b64_decode_of(trimmed_bytes(outputs@)) is Some
                            && gunzip_of(b64_decode_of(trimmed_bytes(outputs@)).unwrap()) is None,
                    },
                    _ => false,
                },
            },
    {
        match &self.data[index].input {
            Some(p) => Ok(p.clone()),
            None => {
                let mut decoder = Decoder::new();
                decoder.init(&self.data[index]);
                let n = outputs.len();
                let mut i: usize = 0;
                while i < n
                    invariant
                        i <= n,
                        n == outputs@.len(),
                        decoder.spec_buffer() == trimmed_bytes(outputs@.subrange(0, i as int)),
                    decreases n - i,
                {
                    decoder.append_message(trim(outputs[i].as_str()));
                    proof {
                        assert(outputs@.subrange(0, i as int + 1).drop_last() =~= outputs@.subrange(
                            0,
                            i as int,
                        ));
                    }
                    i = i + 1;
                }
                proof {
                    assert(outputs@.subrange(0, n as int) =~= outputs@);
                }
                match decoder.decode() {
                    Ok(v) => Ok(v),
                    Err(e) => Err(Error::Decode(index, e)),
                }
            },
        }
    }
}

/// One probe per chunk: a key count satisfying the bounds `chunk_keys`
/// establishes for a test's encoded output equals the number of chunks
/// that output splits into.
pub proof fn lemma_keys_match_chunks(key_count: int, payload: Seq<u8>)
    requires
        key_count >= 0,
        key_count * (BLOCK as int) >= payload.len(),
        key_count > 0 ==> (key_count - 1) * (BLOCK as int) < payload.len(),
        key_count == 0 ==> payload.len() == 0,
    ensures
        key_count == chunks_of(payload, BLOCK as int).len(),
{
    lemma_chunks_count(payload, BLOCK as int);
    lemma_cover_count_unique(
        key_count,
        chunks_of(payload, BLOCK as int).len() as int,
        BLOCK as int,
        payload.len() as int,
    );
}

} // verus!
