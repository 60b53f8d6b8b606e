//! Memoizing verdict cache: at most one submission per key.
//!
//! The cache maps a [`SubmitKey`] to the verdict its probe produced.
//! A batch of keys is first planned against the cache: keys already
//! held become hits, the rest are generated and dispatched in the
//! caller's order.  Resolution inserts a verdict under its key once;
//! an entry is never overwritten.
//!
//! Generation, dispatch and polling are outside work; the planning
//! functions take their outcomes as plain values and decide the rest.

use crate::problem::{problem_key_eq, Problem};
use crate::verdict::Verdict;
use vstd::prelude::*;

verus! {

/// Cache key of one probe: the 1-based test index and the chunk
/// offset inside that test's output (0 for whole-test probes).
#[derive(Clone, Copy, Debug, PartialEq, Eq, Hash, Structural)]
pub struct SubmitKey {
    pub test: usize,
    pub time: usize,
}

/// Why one unit of a batch failed.
#[derive(Debug)]
pub enum ErrorKind {
    /// Building the probe source failed.
    Generate(String),
    /// Dispatching the probe to the judge failed.
    Submit(String),
    /// Polling the submission or validating its verdict failed.
    GetResult(String),
}

/// Failure of one key of a batch, naming the key precisely enough to
/// re-run just that unit.
#[derive(Debug)]
pub struct Error {
    pub id: SubmitKey,
    pub kind: ErrorKind,
}

/// Per-key outcome of planning a batch.
#[derive(Debug)]
pub enum State {
    /// The verdict is already cached.
    Hit,
    /// A probe was dispatched; its verdict is awaited.
    Pending,
    /// Generation or dispatch failed for this key.
    Failed(ErrorKind),
}

/// One key of a planned batch together with its state.
#[derive(Debug)]
pub struct Handle {
    pub id: SubmitKey,
    pub state: State,
}

/// A snapshot load that does not belong to the selected problem.
#[derive(Debug)]
pub enum StorageError {
    /// Expected problem, then the problem the snapshot carried.
    Mismatch(Problem, Problem),
}

/// The map an entry list denotes.
pub open spec fn entries_map(s: Seq<(SubmitKey, Verdict)>) -> Map<SubmitKey, Verdict>
    decreases s.len(),
{
    if s.len() == 0 {
        Map::empty()
    } else {
        entries_map(s.drop_last()).insert(s.last().0, s.last().1)
    }
}

/// No key occurs twice in the entry list.
pub open spec fn unique_keys(s: Seq<(SubmitKey, Verdict)>) -> bool {
    forall|i: int, j: int| 0 <= i < j < s.len() ==> (#[trigger] s[i]).0 != (#[trigger] s[j]).0
}

/// An entry of the list is in the map, with its own verdict.
pub proof fn lemma_entries_map_has(s: Seq<(SubmitKey, Verdict)>, i: int)
    requires
        0 <= i < s.len(),
        unique_keys(s),
    ensures
        entries_map(s).contains_key(s[i].0),
        entries_map(s)[s[i].0] == s[i].1,
    decreases s.len(),
{
    if i < s.len() - 1 {
        assert(unique_keys(s.drop_last()));
        lemma_entries_map_has(s.drop_last(), i);
        assert(s.drop_last()[i] == s[i]);
    }
}

/// A key on no entry of the list is not in the map.
pub proof fn lemma_entries_map_absent(s: Seq<(SubmitKey, Verdict)>, k: SubmitKey)
    requires
        forall|i: int| 0 <= i < s.len() ==> (#[trigger] s[i]).0 != k,
    ensures
        !entries_map(s).contains_key(k),
    decreases s.len(),
{
    if s.len() > 0 {
        assert(forall|i: int|
            0 <= i < s.len() - 1 ==> (#[trigger] s.drop_last()[i]).0 != k);
        lemma_entries_map_absent(s.drop_last(), k);
    }
}

/// Number of keys among `keys[0..i]` that miss the cache `m`.
/// Each such key costs one generation.
pub open spec fn miss_rank(m: Map<SubmitKey, Verdict>, keys: Seq<SubmitKey>, i: int) -> int
    decreases i,
{
    if i <= 0 {
        0
    } else {
        miss_rank(m, keys, i - 1) + if !m.contains_key(keys[i - 1]) {
            1int
        } else {
            0int
        }
    }
}

/// Number of keys among `keys[0..i]` that miss the cache and whose
/// generation succeeded.  Each such key costs one dispatch.
pub open spec fn disp_rank(
    m: Map<SubmitKey, Verdict>,
    keys: Seq<SubmitKey>,
    gen: Seq<Option<String>>,
    i: int,
) -> int
    decreases i,
{
    if i <= 0 {
        0
    } else {
        disp_rank(m, keys, gen, i - 1) + if !m.contains_key(keys[i - 1]) && gen[miss_rank(
            m,
            keys,
            i - 1,
        )] is None {
            1int
        } else {
            0int
        }
    }
}

proof fn lemma_miss_rank_monotone(m: Map<SubmitKey, Verdict>, keys: Seq<SubmitKey>, i: int, j: int)
    requires
        i <= j,
    ensures
        miss_rank(m, keys, i) <= miss_rank(m, keys, j),
        miss_rank(m, keys, j) - miss_rank(m, keys, i) <= j - i,
    decreases j - i,
{
    if i < j {
        lemma_miss_rank_monotone(m, keys, i, j - 1);
    }
}

proof fn lemma_disp_rank_monotone(
    m: Map<SubmitKey, Verdict>,
    keys: Seq<SubmitKey>,
    gen: Seq<Option<String>>,
    i: int,
    j: int,
)
    requires
        i <= j,
    ensures
        disp_rank(m, keys, gen, i) <= disp_rank(m, keys, gen, j),
    decreases j - i,
{
    if i < j {
        lemma_disp_rank_monotone(m, keys, gen, i, j - 1);
    }
}

/// The state a planned batch assigns to key `i`: a hit where the cache
/// already holds the key; otherwise the key's generation outcome and,
/// where generation succeeded, its dispatch outcome decide.
pub open spec fn expected_state(
    m: Map<SubmitKey, Verdict>,
    keys: Seq<SubmitKey>,
    gen: Seq<Option<String>>,
    disp: Seq<Option<String>>,
    i: int,
) -> State {
    if m.contains_key(keys[i]) {
        State::Hit
    } else {
        match gen[miss_rank(m, keys, i)] {
            Some(e) => State::Failed(ErrorKind::Generate(e)),
            None => match disp[disp_rank(m, keys, gen, i)] {
                Some(e) => State::Failed(ErrorKind::Submit(e)),
                None => State::Pending,
            },
        }
    }
}

/// The memoizing cache of one selected problem.
pub struct Cache {
    problem: Problem,
    entries: Vec<(SubmitKey, Verdict)>,
}

impl Cache {
    /// The stored entries, in insertion order.
    pub closed spec fn spec_entries(&self) -> Seq<(SubmitKey, Verdict)> {
        self.entries@
    }

    /// The key-to-verdict map the cache holds.
    pub open spec fn spec_map(&self) -> Map<SubmitKey, Verdict> {
        entries_map(self.spec_entries())
    }

    /// The problem this cache belongs to.
    pub closed spec fn spec_problem(&self) -> Problem {
        self.problem
    }

    /// Well-formed: no key is stored twice.
    pub open spec fn wf(&self) -> bool {
        unique_keys(self.spec_entries())
    }

    /// An empty cache for the given problem.
    pub fn new(problem: Problem) -> (r: Self)
        ensures
            r.wf(),
            r.spec_map() == Map::<SubmitKey, Verdict>::empty(),
            r.spec_problem() == problem,
    {
        Cache { problem, entries: Vec::new() }
    }

    pub fn problem(&self) -> (r: &Problem)
        ensures
            *r == self.spec_problem(),
    {
        &self.problem
    }

    /// The stored entries, for writing a snapshot.
    pub fn entries(&self) -> (r: &Vec<(SubmitKey, Verdict)>)
        ensures
            r@ == self.spec_entries(),
    {
        &self.entries
    }

    /// Drops every cached verdict; the problem selection is kept.
    pub fn flush(&mut self)
        ensures
            final(self).wf(),
            final(self).spec_map() == Map::<SubmitKey, Verdict>::empty(),
            final(self).spec_problem() == old(self).spec_problem(),
    {
        self.entries.clear();
    }

    /// Index of the entry holding `key`, if the cache holds one.
    fn find(&self, key: SubmitKey) -> (r: Option<usize>)
        requires
            self.wf(),
        ensures
            match r {
                Some(i) => i < self.spec_entries().len() && self.spec_entries()[i as int].0 == key
                    && self.spec_map().contains_key(key) && self.spec_map()[key]
                    == self.spec_entries()[i as int].1,
                None => !self.spec_map().contains_key(key),
            },
    {
        let n = self.entries.len();
        let mut i: usize = 0;
        while i < n
            invariant
                i <= n,
                n == self.entries@.len(),
                self.wf(),
                forall|j: int| 0 <= j < i ==> (#[trigger] self.entries@[j]).0 != key,
            decreases n - i,
        {
            if self.entries[i].0 == key {
                proof {
                    lemma_entries_map_has(self.entries@, i as int);
                }
                return Some(i);
            }
            i = i + 1;
        }
        proof {
            lemma_entries_map_absent(self.entries@, key);
        }
        None
    }

    /// Whether a verdict is already cached under `key`.
    pub fn contains(&self, key: SubmitKey) -> (r: bool)
        requires
            self.wf(),
        ensures
            r == self.spec_map().contains_key(key),
    {
        self.find(key).is_some()
    }

    /// The cached verdict under `key`, if any.
    pub fn get(&self, key: SubmitKey) -> (r: Option<&Verdict>)
        requires
            self.wf(),
        ensures
            match r {
                Some(v) => self.spec_map().contains_key(key) && *v == self.spec_map()[key],
                None => !self.spec_map().contains_key(key),
            },
    {
        match self.find(key) {
            Some(i) => Some(&self.entries[i].1),
            None => None,
        }
    }

    /// Stores a verdict under a key the cache does not hold yet.
    fn push_entry(&mut self, key: SubmitKey, v: Verdict)
        requires
            old(self).wf(),
            !old(self).spec_map().contains_key(key),
        ensures
            final(self).wf(),
            final(self).spec_map() == old(self).spec_map().insert(key, v),
            final(self).spec_problem() == old(self).spec_problem(),
    {
        proof {
            assert forall|i: int| 0 <= i < self.entries@.len() implies (#[trigger] self.entries@[i]).0
                != key by {
                if self.entries@[i].0 == key {
                    lemma_entries_map_has(self.entries@, i);
                }
            }
        }
        self.entries.push((key, v));
        proof {
            assert(self.entries@.drop_last() =~= old(self).spec_entries());
        }
    }

    /// The keys of a batch that miss the cache, in the caller's order:
    /// exactly these need a probe generated and dispatched.
    pub fn misses(&self, keys: &Vec<SubmitKey>) -> (r: Vec<SubmitKey>)
        requires
            self.wf(),
        ensures
            r@ == keys@.filter(|k: SubmitKey| !self.spec_map().contains_key(k)),
    {
        let ghost pred = |k: SubmitKey| !self.spec_map().contains_key(k);
        let mut r: Vec<SubmitKey> = Vec::new();
        let n = keys.len();
        let mut i: usize = 0;
        proof {
            reveal(Seq::filter);
        }
        while i < n
            invariant
                i <= n,
                n == keys@.len(),
                self.wf(),
                pred == (|k: SubmitKey| !self.spec_map().contains_key(k)),
                r@ == keys@.subrange(0, i as int).filter(pred),
            decreases n - i,
        {
            proof {
                reveal(Seq::filter);
                assert(keys@.subrange(0, i + 1).drop_last() =~= keys@.subrange(0, i as int));
            }
            if !self.contains(keys[i]) {
                r.push(keys[i]);
            }
            i = i + 1;
        }
        proof {
            assert(keys@.subrange(0, n as int) =~= keys@);
        }
        r
    }

    /// Plans one batch.  `gen` holds, in order, one generation outcome
    /// per missing key (`None` for a generated source, `Some(msg)` for
    /// a failure); `disp` holds one dispatch outcome per generated
    /// probe, in the same order — the caller's key order, which fixes
    /// the dispatch order.  The cache itself is not changed: an entry
    /// appears only when a pending handle resolves.
    pub fn submit_batch(
        &self,
        keys: &Vec<SubmitKey>,
        gen: &Vec<Option<String>>,
        disp: &Vec<Option<String>>,
    ) -> (r: Vec<Handle>)
        requires
            self.wf(),
            gen@.len() == miss_rank(self.spec_map(), keys@, keys@.len() as int),
            disp@.len() == disp_rank(self.spec_map(), keys@, gen@, keys@.len() as int),
        ensures
            r@.len() == keys@.len(),
            forall|i: int|
                0 <= i < keys@.len() ==> (#[trigger] r@[i]).id == keys@[i] && r@[i].state
                    == expected_state(self.spec_map(), keys@, gen@, disp@, i),
    {
        let ghost m = self.spec_map();
        let mut r: Vec<Handle> = Vec::new();
        let n = keys.len();
        let gen_len = gen.len();
        let disp_len = disp.len();
        let mut i: usize = 0;
        let mut mi: usize = 0;
        let mut di: usize = 0;
        while i < n
            invariant
                i <= n,
                n == keys@.len(),
                self.wf(),
                m == self.spec_map(),
                gen_len == gen@.len(),
                disp_len == disp@.len(),
                gen@.len() == miss_rank(m, keys@, n as int),
                disp@.len() == disp_rank(m, keys@, gen@, n as int),
                mi == miss_rank(m, keys@, i as int),
                di == disp_rank(m, keys@, gen@, i as int),
                r@.len() == i,
                forall|j: int|
                    0 <= j < i ==> (#[trigger] r@[j]).id == keys@[j] && r@[j].state
                        == expected_state(m, keys@, gen@, disp@, j),
            decreases n - i,
        {
            let key = keys[i];
            let state = if self.contains(key) {
                State::Hit
            } else {
                proof {
                    assert(miss_rank(m, keys@, i as int + 1) == mi + 1);
                    lemma_miss_rank_monotone(m, keys@, i as int + 1, n as int);
                    assert(mi < gen_len);
                }
                let g = &gen[mi];
                mi = mi + 1;
                match g {
                    Some(e) => State::Failed(ErrorKind::Generate(e.clone())),
                    None => {
                        proof {
                            assert(disp_rank(m, keys@, gen@, i as int + 1) == di + 1);
                            lemma_disp_rank_monotone(m, keys@, gen@, i as int + 1, n as int);
                            assert(di < disp_len);
                        }
                        let d = &disp[di];
                        di = di + 1;
                        match d {
                            Some(e) => State::Failed(ErrorKind::Submit(e.clone())),
                            None => State::Pending,
                        }
                    },
                }
            };
            r.push(Handle { id: key, state });
            i = i + 1;
        }
        r
    }

    /// Resolves one handle of a planned batch.  A hit returns the
    /// cached verdict; a failed handle returns its error; a pending
    /// handle takes the polling outcome, stores a fresh verdict under
    /// its key — never overwriting an entry — and returns the verdict
    /// the cache holds.
    pub fn resolve(&mut self, handle: Handle, outcome: Option<Result<Verdict, String>>) -> (r:
        Result<Verdict, Error>)
        requires
            old(self).wf(),
            (handle.state is Pending) <==> (outcome is Some),
            handle.state is Hit ==> old(self).spec_map().contains_key(handle.id),
        ensures
            final(self).wf(),
            final(self).spec_problem() == old(self).spec_problem(),
            (match handle.state {
                State::Hit => final(self).spec_map() == old(self).spec_map() && r == Ok::<
                    Verdict,
                    Error,
                >(old(self).spec_map()[handle.id]),
                State::Failed(k) => final(self).spec_map() == old(self).spec_map() && r == Err::<
                    Verdict,
                    Error,
                >((Error { id: handle.id, kind: k })),
                State::Pending => (match outcome {
                    Some(Ok(v)) => if old(self).spec_map().contains_key(handle.id) {
                        final(self).spec_map() == old(self).spec_map() && r == Ok::<
                            Verdict,
                            Error,
                        >(old(self).spec_map()[handle.id])
                    } else {
                        final(self).spec_map() == old(self).spec_map().insert(handle.id, v) && r
                            == Ok::<Verdict, Error>(v)
                    },
                    Some(Err(e)) => final(self).spec_map() == old(self).spec_map() && r == Err::<
                        Verdict,
                        Error,
                    >((Error { id: handle.id, kind: ErrorKind::GetResult(e) })),
                    None => false,
                }),
            }),
    {
        match handle.state {
            State::Hit => {
                let v = self.get(handle.id);
                Ok(v.unwrap().clone())
            },
            State::Failed(k) => Err(Error { id: handle.id, kind: k }),
            State::Pending => match outcome {
                Some(Ok(v)) => {
                    if self.contains(handle.id) {
                        let held = self.get(handle.id);
                        Ok(held.unwrap().clone())
                    } else {
                        let out = v.clone();
                        self.push_entry(handle.id, v);
                        Ok(out)
                    }
                },
                Some(Err(e)) => Err(Error { id: handle.id, kind: ErrorKind::GetResult(e) }),
                None => vstd::pervasive::unreached(),
            },
        }
    }

    /// Replaces the cache's contents with a loaded snapshot, but only
    /// when the snapshot belongs to the selected problem; otherwise the
    /// load is rejected and the cache is untouched.
    pub fn load(&mut self, problem: &Problem, content: Vec<(SubmitKey, Verdict)>) -> (r: Result<
        (),
        StorageError,
    >)
        requires
            old(self).wf(),
            unique_keys(content@),
        ensures
            final(self).wf(),
            final(self).spec_problem() == old(self).spec_problem(),
            if problem_key_eq(&old(self).spec_problem(), problem) {
                r is Ok && final(self).spec_map() == entries_map(content@)
            } else {
                r is Err && final(self).spec_map() == old(self).spec_map() && final(self).spec_entries() == old(self).spec_entries()
            },
    {
        if self.problem.eq(problem) {
            self.entries = content;
            Ok(())
        } else {
            Err(StorageError::Mismatch(self.problem.clone(), problem.clone()))
        }
    }
}

/// Idempotence of resolution.  A key `k` missing from a cache `m`
/// costs one generation in a batch (its miss is counted); once its
/// verdict `v` is inserted, a second batch for the same key plans a
/// pure hit — no generation, no dispatch — and that hit resolves to
/// the very verdict `v` stored the first time.
pub proof fn lemma_idempotent_resolve(m: Map<SubmitKey, Verdict>, k: SubmitKey, v: Verdict)
    requires
        !m.contains_key(k),
    ensures
        miss_rank(m, seq![k], 1) == 1,
        miss_rank(m.insert(k, v), seq![k], 1) == 0,
        expected_state(m.insert(k, v), seq![k], Seq::empty(), Seq::empty(), 0) is Hit,
        m.insert(k, v)[k] == v,
{
    assert(seq![k][0] == k);
    assert(miss_rank(m, seq![k], 0) == 0);
    assert(miss_rank(m.insert(k, v), seq![k], 0) == 0);
}

/// At-most-once submission.  A key the cache holds is dispatched by no
/// later batch: it is not among the misses of any key list, and its
/// planned state is a hit.  Resolution only ever adds entries — see
/// `resolve`, whose map afterwards is the old map or the old map with
/// one fresh key inserted — so the key stays held for good.
pub proof fn lemma_at_most_once(
    m: Map<SubmitKey, Verdict>,
    keys: Seq<SubmitKey>,
    gen: Seq<Option<String>>,
    disp: Seq<Option<String>>,
    k: SubmitKey,
)
    requires
        m.contains_key(k),
    ensures
        !keys.filter(|x: SubmitKey| !m.contains_key(x)).contains(k),
        forall|i: int|
            0 <= i < keys.len() && keys[i] == k ==> expected_state(m, keys, gen, disp, i) is Hit,
        forall|k2: SubmitKey, v: Verdict| (#[trigger] m.insert(k2, v)).contains_key(k),
{
    let pred = |x: SubmitKey| !m.contains_key(x);
    let f = keys.filter(pred);
    if f.contains(k) {
        let i = choose|i: int| 0 <= i < f.len() && f[i] == k;
        keys.lemma_filter_pred(pred, i);
    }
}

} // verus!
