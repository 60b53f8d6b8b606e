//! The judge's answer for one probe submission.

use crate::config::MAX_OUTPUT;
use vstd::prelude::*;
use vstd::string::StrSliceExecFns;

verus! {

/// The judge's structured result for one submission: the captured
/// sample input, the probe's output payload, and the sample answer.
/// Immutable after creation.
#[derive(Debug)]
pub struct Verdict {
    pub input: Option<String>,
    pub output: String,
    pub answer: Option<String>,
}

/// Clones an optional string, keeping its value.
pub fn clone_opt_string(s: &Option<String>) -> (r: Option<String>)
    ensures
        r == *s,
{
    match s {
        Some(v) => Some(v.clone()),
        None => None,
    }
}

impl Clone for Verdict {
    fn clone(&self) -> (r: Self)
        ensures
            r == *self,
    {
        Verdict {
            input: clone_opt_string(&self.input),
            output: self.output.clone(),
            answer: clone_opt_string(&self.answer),
        }
    }
}

/// Keeps a captured literal only when the judge exposed it whole:
/// a value longer than `MAX_OUTPUT` was truncated by the judge and
/// is dropped rather than stored incomplete.
pub fn full_data_or(data: String) -> (r: Option<String>)
    ensures
        r == (if data@.len() > MAX_OUTPUT as nat {
            None::<String>
        } else {
            Some(data)
        }),
{
    if data.as_str().unicode_len() > MAX_OUTPUT {
        None
    } else {
        Some(data)
    }
}

} // verus!
