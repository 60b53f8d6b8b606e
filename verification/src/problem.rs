//! Identity of a judge problem and the URLs derived from it.

use vstd::prelude::*;
use vstd::string::StringExecFns;

verus! {

/// Where a problem lives on the judge.
#[derive(Clone, Copy, Debug, PartialEq, Eq, Structural)]
pub enum Type {
    Contest,
    Gym,
}

/// A selected problem.  Identity is the source kind, the contest id
/// and the problem index; the two URLs are derived from the contest
/// and take no part in equality.
#[derive(Debug)]
pub struct Problem {
    pub submit_url: String,
    pub status_url: String,
    pub source: Type,
    pub contest: String,
    pub id: String,
}

/// Structural identity of two problems: source kind, contest and
/// problem index, nothing else.
pub open spec fn problem_key_eq(a: &Problem, b: &Problem) -> bool {
    a.source == b.source && a.contest@ == b.contest@ && a.id@ == b.id@
}

impl PartialEq for Problem {
    fn eq(&self, other: &Self) -> bool {
        self.source == other.source && self.contest.eq(&other.contest) && self.id.eq(&other.id)
    }
}

impl vstd::std_specs::cmp::PartialEqSpecImpl for Problem {
    open spec fn obeys_eq_spec() -> bool {
        true
    }

    open spec fn eq_spec(&self, other: &Self) -> bool {
        problem_key_eq(self, other)
    }
}

impl Clone for Problem {
    fn clone(&self) -> (r: Self)
        ensures
            r == *self,
    {
        Problem {
            submit_url: self.submit_url.clone(),
            status_url: self.status_url.clone(),
            source: self.source,
            contest: self.contest.clone(),
            id: self.id.clone(),
        }
    }
}

impl Problem {
    /// Builds a problem from its identity, deriving the submit and
    /// status URLs from the contest id.
    pub fn new(source: Type, contest: String, id: String) -> (r: Problem)
        ensures
            r.source == source,
            r.contest@ == contest@,
            r.id@ == id@,
            r.submit_url@ == "https://codeforces.com/contest/"@ + contest@ + "/submit"@,
            r.status_url@ == "https://codeforces.com/contest/"@ + contest@ + "/status"@,
    {
        let mut submit_url = String::from_str("https://codeforces.com/contest/");
        submit_url.append(contest.as_str());
        submit_url.append("/submit");
        let mut status_url = String::from_str("https://codeforces.com/contest/");
        status_url.append(contest.as_str());
        status_url.append("/status");
        Problem { submit_url, status_url, source, contest, id }
    }
}

/// The page of a problem on the judge, derived from contest and index.
pub fn get_problem_url(_source: Type, contest: &str, id: &str) -> (r: String)
    ensures
        r@ == "https://codeforces.com/contest/"@ + contest@ + "/problem/"@ + id@,
{
    let mut url = String::from_str("https://codeforces.com/contest/");
    url.append(contest);
    url.append("/problem/");
    url.append(id);
    url
}

} // verus!
