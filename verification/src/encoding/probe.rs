//! Probe construction and metadata decoding.
//!
//! An encoder keeps the state a probe's source is rendered from: the
//! template, a per-run random salt, and the ignore list of fingerprints
//! the probe must skip.  Rendering itself is an outside collaborator;
//! the encoder hands it a plain request.  Decoding turns the verdict of
//! a metadata probe into a [`TestMeta`] by reading its
//! whitespace-delimited record: `size output_size compress_size hash`.

use crate::config::BLOCK;
use crate::encoding::Template;
use crate::random::random_u64;
use crate::text::{all_digits, digits_val, parse_usize, spec_tokens, split_ws};
use crate::types::{DataId, TestMeta};
use crate::verdict::Verdict;
use vstd::prelude::*;

verus! {

/// Why a metadata record could not be read.
#[derive(Debug)]
pub enum Error {
    /// The named numeric field would not parse as a number.
    ParseInt(&'static str),
    /// The named field is missing from the record.
    Split(&'static str),
}

/// A token that parses as a `usize`: non-empty, all digits, in range.
pub open spec fn spec_parseable(t: Seq<char>) -> bool {
    t.len() > 0 && all_digits(t) && digits_val(t) <= usize::MAX
}

/// What a well-decoded metadata record promises: four tokens were
/// found, the first three parse as the sizes, the fourth is the
/// fingerprint, and the verdict's inline input and answer are carried
/// over unchanged.
pub open spec fn decoded_meta_ok(m: TestMeta, message: &Verdict) -> bool {
    let toks = spec_tokens(message.output@);
    &&& toks.len() >= 4
    &&& spec_parseable(toks[0])
    &&& spec_parseable(toks[1])
    &&& spec_parseable(toks[2])
    &&& m.size == digits_val(toks[0])
    &&& m.output_size == digits_val(toks[1])
    &&& m.compress_size == digits_val(toks[2])
    &&& m.data_id.hash@ == toks[3]
    &&& m.data_id.answer == message.answer
    &&& m.input == message.input
}

/// Which decoding error a record earns: the first missing field is a
/// split error and the first unparseable field a parse error, each
/// under its own name, if and only if.
pub open spec fn decode_err_ok(e: Error, out: Seq<char>) -> bool {
    let toks = spec_tokens(out);
    match e {
        Error::ParseInt(n) => (n@ == "size"@ && toks.len() >= 1 && !spec_parseable(toks[0])) || (n@
            == "output_size"@ && toks.len() >= 2 && spec_parseable(toks[0]) && !spec_parseable(
            toks[1],
        )) || (n@ == "compress_size"@ && toks.len() >= 3 && spec_parseable(toks[0])
            && spec_parseable(toks[1]) && !spec_parseable(toks[2])),
        Error::Split(n) => (n@ == "size"@ && toks.len() == 0) || (n@ == "output_size"@ && toks.len()
            == 1 && spec_parseable(toks[0])) || (n@ == "compress_size"@ && toks.len() == 2
            && spec_parseable(toks[0]) && spec_parseable(toks[1])) || (n@ == "hash"@ && toks.len()
            == 3 && spec_parseable(toks[0]) && spec_parseable(toks[1]) && spec_parseable(toks[2])),
    }
}

/// Reads the next token of a record as a number and advances the
/// position; a missing token or one that is no number names the field.
pub fn next_usize(tokens: &Vec<String>, pos: &mut usize, name: &'static str) -> (r: Result<
    usize,
    Error,
>)
    ensures
        match r {
            Ok(v) => *old(pos) < tokens@.len() && *final(pos) == *old(pos) + 1 && spec_parseable(
                tokens@[*old(pos) as int]@,
            ) && v == digits_val(tokens@[*old(pos) as int]@),
            Err(e) => *final(pos) == *old(pos) && match e {
                Error::Split(n) => n@ == name@ && *old(pos) >= tokens@.len(),
                Error::ParseInt(n) => n@ == name@ && *old(pos) < tokens@.len() && !spec_parseable(
                    tokens@[*old(pos) as int]@,
                ),
            },
        },
{
    if *pos >= tokens.len() {
        return Err(Error::Split(name));
    }
    match parse_usize(tokens[*pos].as_str()) {
        Some(v) => {
            *pos = *pos + 1;
            Ok(v)
        },
        None => Err(Error::ParseInt(name)),
    }
}

/// Clones a fingerprint list, keeping its values.
fn clone_ids(v: &Vec<DataId>) -> (r: Vec<DataId>)
    ensures
        r@ == v@,
{
    let mut r: Vec<DataId> = Vec::new();
    let n = v.len();
    let mut i: usize = 0;
    while i < n
        invariant
            i <= n,
            n == v@.len(),
            r@ =~= v@.subrange(0, i as int),
        decreases n - i,
    {
        r.push(v[i].clone());
        proof {
            assert(r@ =~= v@.subrange(0, i as int + 1));
        }
        i = i + 1;
    }
    proof {
        assert(v@.subrange(0, n as int) =~= v@);
    }
    r
}

/// Everything an outside renderer needs for one data-chunk probe.
pub struct ProbeRequest {
    pub random: u64,
    pub length: usize,
    pub offset: usize,
    pub ignore: Vec<DataId>,
}

/// Everything an outside renderer needs for one metadata probe.
pub struct MetaRequest {
    pub random: u64,
    pub ignore: Vec<DataId>,
}

/// Render state for data-chunk probes.
pub struct Encoder {
    template: Template,
    random: u64,
    ignore: Vec<DataId>,
}

impl Encoder {
    /// Fingerprints the probe must skip, in the order they were added.
    pub closed spec fn spec_ignore(&self) -> Seq<DataId> {
        self.ignore@
    }

    /// The per-run salt.
    pub closed spec fn spec_random(&self) -> u64 {
        self.random
    }

    /// The template probes are rendered from.
    pub closed spec fn spec_template(&self) -> Template {
        self.template
    }

    /// An encoder for the template with an empty ignore list; `max`
    /// is a capacity hint for the list.
    pub fn new(template: &Template, max: usize) -> (r: Self)
        ensures
            r.spec_ignore() == Seq::<DataId>::empty(),
            r.spec_template() == *template,
            r.spec_random() == 0,
    {
        let mut ignore: Vec<DataId> = Vec::new();
        ignore.reserve(max);
        Encoder { template: template.clone(), random: 0, ignore }
    }

    /// Draws a fresh per-run salt, defeating judge-side suppression of
    /// duplicate submissions across separate runs.
    pub fn init(&mut self)
        ensures
            final(self).spec_ignore() == old(self).spec_ignore(),
            final(self).spec_template() == old(self).spec_template(),
    {
        self.random = random_u64();
    }

    /// Adds one fingerprint to the ignore list.
    pub fn push_ignore(&mut self, hash: &DataId)
        ensures
            final(self).spec_ignore() == old(self).spec_ignore().push(*hash),
            final(self).spec_template() == old(self).spec_template(),
            final(self).spec_random() == old(self).spec_random(),
    {
        self.ignore.push(hash.clone());
    }

    /// Removes the most recently added fingerprint, if any.
    pub fn pop_ignore(&mut self)
        ensures
            old(self).spec_ignore().len() > 0 ==> final(self).spec_ignore() == old(
                self,
            ).spec_ignore().drop_last(),
            old(self).spec_ignore().len() == 0 ==> final(self).spec_ignore() == old(
                self,
            ).spec_ignore(),
            final(self).spec_template() == old(self).spec_template(),
            final(self).spec_random() == old(self).spec_random(),
    {
        let _ = self.ignore.pop();
    }

    /// The render request for the chunk at `offset`: the salt, the
    /// fixed chunk length, the offset and the current ignore list.
    pub fn generate(&self, offset: usize) -> (r: ProbeRequest)
        ensures
            r.random == self.spec_random(),
            r.length == BLOCK,
            r.offset == offset,
            r.ignore@ == self.spec_ignore(),
    {
        ProbeRequest { random: self.random, length: BLOCK, offset, ignore: clone_ids(&self.ignore) }
    }
}

/// Render state for metadata probes, and the decoder of their records.
pub struct Meta {
    template: Template,
    random: u64,
    ignore: Vec<DataId>,
}

impl Meta {
    /// Fingerprints of the tests already discovered, in order.
    pub closed spec fn spec_ignore(&self) -> Seq<DataId> {
        self.ignore@
    }

    /// The per-run salt.
    pub closed spec fn spec_random(&self) -> u64 {
        self.random
    }

    /// The template probes are rendered from.
    pub closed spec fn spec_template(&self) -> Template {
        self.template
    }

    /// An encoder for the template with an empty ignore list; `max`
    /// is a capacity hint for the list.
    pub fn new(template: &Template, max: usize) -> (r: Self)
        ensures
            r.spec_ignore() == Seq::<DataId>::empty(),
            r.spec_template() == *template,
            r.spec_random() == 0,
    {
        let mut ignore: Vec<DataId> = Vec::new();
        ignore.reserve(max);
        Meta { template: template.clone(), random: 0, ignore }
    }

    /// Draws a fresh per-run salt.
    pub fn init(&mut self)
        ensures
            final(self).spec_ignore() == old(self).spec_ignore(),
            final(self).spec_template() == old(self).spec_template(),
    {
        self.random = random_u64();
    }

    /// Adds one discovered fingerprint to the ignore list.
    pub fn ignore(&mut self, hash: &DataId)
        ensures
            final(self).spec_ignore() == old(self).spec_ignore().push(*hash),
            final(self).spec_template() == old(self).spec_template(),
            final(self).spec_random() == old(self).spec_random(),
    {
        self.ignore.push(hash.clone());
    }

    /// The render request for the next metadata probe: the salt and
    /// the current ignore list.
    pub fn generate(&self) -> (r: MetaRequest)
        ensures
            r.random == self.spec_random(),
            r.ignore@ == self.spec_ignore(),
    {
        MetaRequest { random: self.random, ignore: clone_ids(&self.ignore) }
    }

    /// Reads a metadata probe's verdict into a [`TestMeta`]: the
    /// record `size output_size compress_size hash`, read left to
    /// right; the first missing or malformed field names itself.  The
    /// verdict's inline input and answer are carried over.
    pub fn decode(message: Verdict) -> (r: Result<TestMeta, Error>)
        ensures
            match r {
                Ok(m) => decoded_meta_ok(m, &message),
                Err(e) => decode_err_ok(e, message.output@),
            },
    {
        let tokens = split_ws(message.output.as_str());
        let mut pos: usize = 0;
        let size = match next_usize(&tokens, &mut pos, "size") {
            Ok(v) => v,
            Err(e) => {
                return Err(e);
            },
        };
        let output_size = match next_usize(&tokens, &mut pos, "output_size") {
            Ok(v) => v,
            Err(e) => {
                return Err(e);
            },
        };
        let compress_size = match next_usize(&tokens, &mut pos, "compress_size") {
            Ok(v) => v,
            Err(e) => {
                return Err(e);
            },
        };
        if pos >= tokens.len() {
            return Err(Error::Split("hash"));
        }
        let hash = tokens[pos].clone();
        Ok(
            TestMeta {
                size,
                output_size,
                compress_size,
                data_id: DataId { hash, answer: message.answer },
                input: message.input,
            },
        )
    }
}

} // verus!
