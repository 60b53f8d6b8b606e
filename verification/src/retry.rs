//! Backoff policy of the retried network call.
//!
//! A fallible call is attempted up to the configured count.  After a
//! failed attempt the policy names the pause before the next try — a
//! long one when the judge answered with HTTP 403 and is actively
//! throttling, a short one otherwise — or gives up, and the caller
//! returns the final attempt's result unwrapped.

use crate::config::{FORBIDDEN_DELAY_MS, RETRY_COUNT, RETRY_DELAY_MS};
use vstd::prelude::*;

verus! {

/// What to do after failed attempt number `attempt` (counted from
/// zero): wait the returned pause and try again, or — after the final
/// attempt — give up.
pub fn retry_decision(attempt: u32, forbidden: bool) -> (r: Option<u64>)
    ensures
        r == (if attempt + 1 < RETRY_COUNT {
            Some(
                if forbidden {
                    FORBIDDEN_DELAY_MS
                } else {
                    RETRY_DELAY_MS
                },
            )
        } else {
            None::<u64>
        }),
{
    if attempt < RETRY_COUNT - 1 {
        Some(
            if forbidden {
                FORBIDDEN_DELAY_MS
            } else {
                RETRY_DELAY_MS
            },
        )
    } else {
        None
    }
}

} // verus!
