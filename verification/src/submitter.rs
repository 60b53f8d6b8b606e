//! Account rotation under two rate limits.
//!
//! The pool keeps one next-eligible instant per account and a global
//! gate.  An acquisition picks the account idle longest (ties broken
//! by the lower account id), may have to wait until both the account
//! and the global gate allow a submission, then pushes the account's
//! eligibility forward by the per-account cooldown and the global
//! gate forward by the minimum spacing.
//!
//! Instants are plain milliseconds; the caller sleeps until the wake
//! instant an acquisition returns and performs the network dispatch.

use crate::config::{DELAY_PER_ACCOUNT_MS, SUBMIT_DELAY_MS};
use vstd::prelude::*;

verus! {

/// Index of the first minimal element of a non-empty sequence.
pub open spec fn min_index(s: Seq<u64>) -> int
    recommends
        s.len() > 0,
    decreases s.len(),
{
    if s.len() <= 1 {
        0
    } else {
        let m = min_index(s.drop_last());
        if s.last() < s[m] {
            s.len() - 1
        } else {
            m
        }
    }
}

/// `min_index` names the first position holding the minimum.
pub proof fn lemma_min_index(s: Seq<u64>)
    requires
        s.len() > 0,
    ensures
        0 <= min_index(s) < s.len(),
        forall|i: int| 0 <= i < s.len() ==> s[min_index(s)] <= #[trigger] s[i],
        forall|i: int| 0 <= i < min_index(s) ==> #[trigger] s[i] > s[min_index(s)],
    decreases s.len(),
{
    if s.len() > 1 {
        lemma_min_index(s.drop_last());
        assert(forall|i: int| 0 <= i < s.len() - 1 ==> s.drop_last()[i] == s[i]);
    }
}

/// The instant an acquisition from state `(s, g)` completes: the later
/// of the chosen account's eligibility and the global gate.
pub open spec fn spec_wake(s: Seq<u64>, g: u64) -> u64
    recommends
        s.len() > 0,
{
    if s[min_index(s)] >= g {
        s[min_index(s)]
    } else {
        g
    }
}

/// The rotating pool of judge accounts, keyed by small ids.
/// `elig[a]` is the instant account `a` may submit again; the global
/// gate `next_submit` is the instant any account may submit again.
pub struct AccountList {
    elig: Vec<u64>,
    next_submit: u64,
}

impl AccountList {
    /// Next-eligible instant of each admitted account, by account id.
    pub closed spec fn spec_elig(&self) -> Seq<u64> {
        self.elig@
    }

    /// The global gate: no submission may be dispatched before it.
    pub closed spec fn spec_global(&self) -> u64 {
        self.next_submit
    }

    /// An empty pool whose global gate starts at `now`.
    pub fn new(now: u64) -> (r: Self)
        ensures
            r.spec_elig() == Seq::<u64>::empty(),
            r.spec_global() == now,
    {
        AccountList { elig: Vec::new(), next_submit: now }
    }

    pub fn len(&self) -> (r: usize)
        ensures
            r == self.spec_elig().len(),
    {
        self.elig.len()
    }

    pub fn is_empty(&self) -> (r: bool)
        ensures
            r == (self.spec_elig().len() == 0),
    {
        self.elig.len() == 0
    }

    /// Admits `count` new accounts, each immediately eligible at `now`.
    /// Their ids continue the existing numbering.
    pub fn expand(&mut self, now: u64, count: usize)
        requires
            old(self).spec_elig().len() + count <= usize::MAX,
        ensures
            final(self).spec_elig() =~= old(self).spec_elig() + Seq::new(
                count as nat,
                |i: int| now,
            ),
            final(self).spec_global() == old(self).spec_global(),
    {
        let mut added: usize = 0;
        while added < count
            invariant
                added <= count,
                self.elig@.len() == old(self).spec_elig().len() + added,
                self.elig@ =~= old(self).spec_elig() + Seq::new(added as nat, |i: int| now),
                self.next_submit == old(self).spec_global(),
            decreases count - added,
        {
            self.elig.push(now);
            added = added + 1;
        }
    }

    /// Removes the earliest-eligible account (lowest id on a tie) for
    /// one submission.  Returns its id and the instant the caller must
    /// wait for before dispatching: the later of the account's own
    /// eligibility and the global gate.  Advances the global gate by
    /// the minimum spacing and the account's eligibility by the
    /// per-account cooldown.
    pub fn get(&mut self) -> (r: (usize, u64))
        requires
            old(self).spec_elig().len() > 0,
            old(self).spec_global() + SUBMIT_DELAY_MS <= u64::MAX,
            forall|i: int|
                0 <= i < old(self).spec_elig().len() ==> old(self).spec_elig()[i]
                    + DELAY_PER_ACCOUNT_MS <= u64::MAX,
        ensures
            r.0 == min_index(old(self).spec_elig()),
            r.1 == spec_wake(old(self).spec_elig(), old(self).spec_global()),
            final(self).spec_elig() == old(self).spec_elig().update(
                r.0 as int,
                (old(self).spec_elig()[r.0 as int] + DELAY_PER_ACCOUNT_MS) as u64,
            ),
            final(self).spec_global() == old(self).spec_global() + SUBMIT_DELAY_MS,
    {
        let ghost s0 = self.elig@;
        let n = self.elig.len();
        let mut best: usize = 0;
        let mut i: usize = 1;
        while i < n
            invariant
                1 <= i <= n,
                n == self.elig@.len(),
                self.elig@ == s0,
                best < i,
                best == min_index(s0.subrange(0, i as int)),
            decreases n - i,
        {
            assert(s0.subrange(0, i + 1).drop_last() =~= s0.subrange(0, i as int));
            if self.elig[i] < self.elig[best] {
                best = i;
            }
            i = i + 1;
        }
        assert(s0.subrange(0, n as int) =~= s0);
        let account = self.elig[best];
        let wake = if account >= self.next_submit {
            account
        } else {
            self.next_submit
        };
        self.next_submit = self.next_submit + SUBMIT_DELAY_MS;
        self.elig.set(best, account + DELAY_PER_ACCOUNT_MS);
        (best, wake)
    }

    /// Discards all accounts; the global gate is kept.
    pub fn clear(&mut self)
        ensures
            final(self).spec_elig() == Seq::<u64>::empty(),
            final(self).spec_global() == old(self).spec_global(),
    {
        self.elig.clear();
    }
}

/// Global minimum spacing between acquisitions.
///
/// If an acquisition from state `p` completed at the global gate (the
/// chosen account was already eligible), then an acquisition from any
/// later state `q` — that bound grows by the minimum spacing at every
/// acquisition and is never moved back — completes at least the
/// minimum spacing later.  Without the gating condition the claim
/// fails: an account whose eligibility lies beyond the global gate
/// sets the completion instant itself, and a second such account may
/// complete at the same instant.
pub proof fn lemma_global_spacing(p: AccountList, q: AccountList)
    requires
        p.spec_elig().len() > 0,
        q.spec_elig().len() > 0,
        p.spec_elig()[min_index(p.spec_elig())] <= p.spec_global(),
        q.spec_global() >= p.spec_global() + SUBMIT_DELAY_MS,
    ensures
        spec_wake(q.spec_elig(), q.spec_global()) >= spec_wake(p.spec_elig(), p.spec_global())
            + SUBMIT_DELAY_MS,
{
    lemma_min_index(p.spec_elig());
    lemma_min_index(q.spec_elig());
}

/// Per-account cooldown between two acquisitions of one account.
///
/// If account `a` was acquired from state `p` at its own eligibility
/// instant (the account, not the global gate, set the completion),
/// then a later acquisition of `a` from a state `q` — where its
/// eligibility has been pushed forward by the cooldown, as every
/// acquisition does and nothing ever lowers it — completes at least
/// the full cooldown later.  Without the gating condition the claim
/// fails: an account that waited on the global gate was acquired
/// after its eligibility, and its next turn can come sooner than the
/// cooldown measured from that completion.
pub proof fn lemma_account_cooldown(p: AccountList, q: AccountList, a: int)
    requires
        p.spec_elig().len() > 0,
        q.spec_elig().len() > 0,
        a == min_index(p.spec_elig()),
        p.spec_elig()[a] >= p.spec_global(),
        a == min_index(q.spec_elig()),
        q.spec_elig()[a] >= p.spec_elig()[a] + DELAY_PER_ACCOUNT_MS,
    ensures
        spec_wake(q.spec_elig(), q.spec_global()) >= spec_wake(p.spec_elig(), p.spec_global())
            + DELAY_PER_ACCOUNT_MS,
{
    lemma_min_index(p.spec_elig());
    lemma_min_index(q.spec_elig());
}

/// One acquisition never lowers any account's eligibility: the chosen
/// account moves forward by the cooldown and every other account keeps
/// its instant.
pub proof fn lemma_get_keeps_eligibility(s: Seq<u64>)
    requires
        s.len() > 0,
        s[min_index(s)] + DELAY_PER_ACCOUNT_MS <= u64::MAX,
    ensures
        forall|i: int|
            0 <= i < s.len() ==> s.update(
                min_index(s),
                (s[min_index(s)] + DELAY_PER_ACCOUNT_MS) as u64,
            )[i] >= #[trigger] s[i],
{
    lemma_min_index(s);
}

} // verus!
