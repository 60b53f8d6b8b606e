//! Judge protocol errors and the reading of a poll response.
//!
//! The network transport fetches the judge's poll answer and unpacks
//! it into plain fields; the functions here decide what those fields
//! mean: still judging, a verdict for the expected test, or a protocol
//! error.

use crate::config::MAX_OUTPUT;
use crate::text::{contains_seq, digits_val, parse_usize, str_contains};
use crate::verdict::{full_data_or, Verdict};
use vstd::prelude::*;

verus! {

/// What went wrong while talking to the judge.
#[derive(Debug)]
pub enum Kind {
    /// Building the HTTP client failed.
    Builder(String),
    /// A request failed on the wire after exhausting retries.
    Network(String),
    /// The CSRF token could not be obtained.
    Csrf(String),
    /// The judge's API refused the request.
    Api,
    /// An expected pattern was absent from the judge's response.
    Regex,
    /// The mail client failed while registering.
    Email(String),
    /// The verdict's reported test number, then the expected one.
    TestCount(usize, usize),
}

/// A judge error, with an optional free-form description.
#[derive(Debug)]
pub struct Error {
    pub kind: Kind,
    pub description: Option<String>,
}

impl Error {
    pub fn with_kind(kind: Kind) -> (r: Self)
        ensures
            r.kind == kind,
            r.description is None,
    {
        Error { kind, description: None }
    }

    pub fn with_description(kind: Kind, description: String) -> (r: Self)
        ensures
            r.kind == kind,
            r.description == Some(description),
    {
        Error { kind, description: Some(description) }
    }
}

/// The marker the judge's verdict field carries while it still judges.
pub open spec fn spec_waiting(verdict_field: Seq<char>) -> bool {
    contains_seq(verdict_field, "verdict-waiting"@)
}

/// Reads one poll answer, already unpacked into its verdict marker and
/// test-count fields.  While the judge still judges, there is nothing
/// yet.  Otherwise the reported test number must parse and equal the
/// expected one; a mismatch is rejected as a count error rather than
/// accepted silently, and a malformed count is a protocol error.
pub fn poll_status(verdict_field: &str, test_count_field: &str, expected: usize) -> (r: Result<
    Option<usize>,
    Error,
>)
    ensures
        match r {
            Ok(pos) => match pos {
                None => spec_waiting(verdict_field@),
                Some(p) => !spec_waiting(verdict_field@) && test_count_field@.len() > 0
                    && crate::text::all_digits(test_count_field@) && p == digits_val(
                    test_count_field@,
                ) && p == expected,
            },
            Err(e) => !spec_waiting(verdict_field@) && match e.kind {
                Kind::TestCount(got, want) => want == expected && got != expected
                    && test_count_field@.len() > 0 && crate::text::all_digits(test_count_field@)
                    && got == digits_val(test_count_field@),
                Kind::Api => test_count_field@.len() == 0 || !crate::text::all_digits(
                    test_count_field@,
                ) || digits_val(test_count_field@) > usize::MAX,
                _ => false,
            },
        },
{
    if str_contains(verdict_field, "verdict-waiting") {
        return Ok(None);
    }
    match parse_usize(test_count_field) {
        Some(pos) => {
            if pos != expected {
                Err(Error::with_kind(Kind::TestCount(pos, expected)))
            } else {
                Ok(Some(pos))
            }
        },
        None => Err(
            Error::with_description(Kind::Api, String::from_str("malformed test count")),
        ),
    }
}

/// Builds the verdict of a judged submission from its captured fields:
/// the input and answer literals are kept only when the judge exposed
/// them whole, the output chunk always.
pub fn make_verdict(input: String, output: String, answer: String) -> (r: Verdict)
    ensures
        r.input == (if input@.len() > MAX_OUTPUT as nat {
            None::<String>
        } else {
            Some(input)
        }),
        r.output == output,
        r.answer == (if answer@.len() > MAX_OUTPUT as nat {
            None::<String>
        } else {
            Some(answer)
        }),
{
    Verdict { input: full_data_or(input), output, answer: full_data_or(answer) }
}

} // verus!
