//! Reassembly of a test's content from its probe chunks: the chunks
//! concatenate to a base64 text, which decodes to a gzip stream, which
//! decompresses to the original content.

use crate::types::TestMeta;
use vstd::prelude::*;
use vstd::string::StringSliceAdditionalSpecFns;

verus! {

/// What base64 decoding (standard alphabet) yields on the given text:
/// the decoded bytes, or nothing where the text is no valid base64.
pub uninterp spec fn b64_decode_of(s: Seq<u8>) -> Option<Seq<u8>>;

/// What gzip decompression yields on the given bytes, read as text:
/// the decompressed string, or nothing where the bytes are no valid
/// gzip stream of UTF-8 text.
pub uninterp spec fn gunzip_of(s: Seq<u8>) -> Option<Seq<char>>;

/// Relies on base64::decode_config_buf with the standard alphabet; the
/// decoded bytes are a function of the input text alone.
#[verifier::external_body]
fn base64_decode(input: &Vec<u8>) -> (r: Result<Vec<u8>, String>)
    ensures
        match r {
            Ok(v) => b64_decode_of(input@) == Some(v@),
            Err(_) => b64_decode_of(input@) is None,
        },
{
    let mut out = Vec::new();
    match base64::decode_config_buf(input.as_slice(), base64::STANDARD, &mut out) {
        Ok(()) => Ok(out),
        Err(e) => Err(format!("{}", e)),
    }
}

/// Relies on flate2's GzDecoder read to a string; the decompressed
/// text is a function of the compressed bytes alone.
#[verifier::external_body]
fn gzip_decode(input: &Vec<u8>) -> (r: Result<String, String>)
    ensures
        match r {
            Ok(v) => gunzip_of(input@) == Some(v@),
            Err(_) => gunzip_of(input@) is None,
        },
{
    let mut out = String::new();
    let mut decoder = flate2::read::GzDecoder::new(input.as_slice());
    match std::io::Read::read_to_string(&mut decoder, &mut out) {
        Ok(_) => Ok(out),
        Err(e) => Err(format!("{}", e)),
    }
}

/// Why decoding a reassembled test failed.
#[derive(Debug)]
pub enum Error {
    /// The reassembled text is no valid base64.
    Decode(String),
    /// The decoded bytes are no valid gzip stream of text.
    Decompress(String),
}

/// Collects a test's chunk payloads in offset order and decodes the
/// whole: base64, then gzip.
pub struct Decoder {
    buffer: Vec<u8>,
    output_size: usize,
}

impl Decoder {
    /// The text collected so far, as bytes.
    pub closed spec fn spec_buffer(&self) -> Seq<u8> {
        self.buffer@
    }

    pub fn new() -> (r: Self)
        ensures
            r.spec_buffer() == Seq::<u8>::empty(),
    {
        Decoder { buffer: Vec::new(), output_size: 0 }
    }

    /// Prepares for one test: remembers its decoded size (a capacity
    /// hint) — the collected text is not touched.
    pub fn init(&mut self, data: &TestMeta)
        ensures
            final(self).spec_buffer() == old(self).spec_buffer(),
    {
        self.buffer.reserve(data.output_size);
        self.output_size = data.size;
    }

    /// Appends one chunk's payload, in offset order.
    pub fn append_message(&mut self, message: &str)
        ensures
            final(self).spec_buffer() == old(self).spec_buffer() + message.spec_bytes(),
    {
        self.buffer.extend_from_slice(message.as_bytes());
    }

    /// Forgets the collected text, for the next test.
    pub fn clear(&mut self)
        ensures
            final(self).spec_buffer() == Seq::<u8>::empty(),
    {
        self.buffer.clear();
    }

    /// Decodes the collected text: base64 to bytes, bytes to the
    /// test's content.  Each failure names the stage that refused.
    pub fn decode(&self) -> (r: Result<String, Error>)
        ensures
            match r {
                Ok(v) => b64_decode_of(self.spec_buffer()) is Some && gunzip_of(
                    b64_decode_of(self.spec_buffer()).unwrap(),
                ) == Some(v@),
                Err(e) => match e {
                    Error::Decode(_) => b64_decode_of(self.spec_buffer()) is None,
                    Error::Decompress(_) => b64_decode_of(self.spec_buffer()) is Some && gunzip_of(
                        b64_decode_of(self.spec_buffer()).unwrap(),
                    ) is None,
                },
            },
    {
        match base64_decode(&self.buffer) {
            Ok(decoded) => match gzip_decode(&decoded) {
                Ok(text) => Ok(text),
                Err(e) => Err(Error::Decompress(e)),
            },
            Err(e) => Err(Error::Decode(e)),
        }
    }
}

/// `payload` cut into `size`-byte chunks, in offset order; the last
/// chunk may be shorter.
pub open spec fn chunks_of(payload: Seq<u8>, size: int) -> Seq<Seq<u8>>
    decreases payload.len(),
        when size >= 1
{
    if payload.len() == 0 {
        Seq::empty()
    } else if payload.len() <= size {
        seq![payload]
    } else {
        seq![payload.subrange(0, size)] + chunks_of(payload.skip(size), size)
    }
}

/// The chunks in offset order, reassembled.
pub open spec fn concat_chunks(cs: Seq<Seq<u8>>) -> Seq<u8>
    decreases cs.len(),
{
    if cs.len() == 0 {
        Seq::empty()
    } else {
        cs[0] + concat_chunks(cs.drop_first())
    }
}

/// Round trip of the chunk split: for any payload cut into fixed-size
/// chunks (the last possibly shorter), reassembling the chunks in
/// offset order yields the payload bytes exactly.
pub proof fn lemma_chunks_roundtrip(payload: Seq<u8>, size: int)
    requires
        size >= 1,
    ensures
        concat_chunks(chunks_of(payload, size)) =~= payload,
    decreases payload.len(),
{
    if payload.len() == 0 {
    } else if payload.len() <= size {
        assert(chunks_of(payload, size) == seq![payload]);
        assert(seq![payload].drop_first() =~= Seq::<Seq<u8>>::empty());
        assert(concat_chunks(Seq::<Seq<u8>>::empty()) == Seq::<u8>::empty());
    } else {
        lemma_chunks_roundtrip(payload.skip(size), size);
        let head = payload.subrange(0, size);
        let rest = chunks_of(payload.skip(size), size);
        let cs = chunks_of(payload, size);
        assert(cs == seq![head] + rest);
        assert(cs.len() == 1 + rest.len());
        assert(cs[0] == head);
        assert(cs.drop_first() =~= rest);
        assert(concat_chunks(cs) == head + concat_chunks(rest));
        assert(head + payload.skip(size) =~= payload);
    }
}

/// The chunk split produces exactly as many chunks as cover the
/// payload: together they reach its length, and dropping the last one
/// would fall short.  These bounds pin the count — it is the same
/// count of probes `chunk_keys` plans for the encoded output.
pub proof fn lemma_chunks_count(payload: Seq<u8>, size: int)
    requires
        size >= 1,
    ensures
        chunks_of(payload, size).len() * size >= payload.len(),
        chunks_of(payload, size).len() > 0 ==> (chunks_of(payload, size).len() - 1) * size
            < payload.len(),
        chunks_of(payload, size).len() == 0 ==> payload.len() == 0,
    decreases payload.len(),
{
    if payload.len() == 0 {
    } else if payload.len() <= size {
        assert(chunks_of(payload, size).len() == 1);
        assert((chunks_of(payload, size).len() - 1) * size == 0) by (nonlinear_arith)
            requires
                chunks_of(payload, size).len() == 1,
        ;
    } else {
        lemma_chunks_count(payload.skip(size), size);
        let k = chunks_of(payload.skip(size), size).len() as int;
        let total = chunks_of(payload, size).len() as int;
        assert(total == 1 + k);
        assert(payload.skip(size).len() == payload.len() - size);
        assert(k > 0);
        assert((k - 1) * size < payload.len() - size);
        assert(k * size == (k - 1) * size + size) by (nonlinear_arith);
        assert(k * size < payload.len());
        assert(total * size == k * size + size) by (nonlinear_arith)
            requires
                total == 1 + k,
        ;
        assert((total - 1) * size == k * size) by (nonlinear_arith)
            requires
                total == 1 + k,
        ;
        assert((chunks_of(payload, size).len() - 1) * size < payload.len());
    }
}

/// Two counts that both cover a length with none to spare are equal:
/// the bounds `chunk_keys` and `lemma_chunks_count` establish pin one
/// and the same number.
pub proof fn lemma_cover_count_unique(a: int, b: int, size: int, n: int)
    requires
        size >= 1,
        a * size >= n,
        a > 0 ==> (a - 1) * size < n,
        a == 0 ==> n == 0,
        b * size >= n,
        b > 0 ==> (b - 1) * size < n,
        b == 0 ==> n == 0,
        a >= 0,
        b >= 0,
    ensures
        a == b,
{
    if a < b {
        assert((b - 1) * size >= a * size) by (nonlinear_arith)
            requires
                a <= b - 1,
                size >= 1,
                a >= 0,
        ;
        assert(false);
    }
    if b < a {
        assert((a - 1) * size >= b * size) by (nonlinear_arith)
            requires
                b <= a - 1,
                size >= 1,
                b >= 0,
        ;
        assert(false);
    }
}

} // verus!
