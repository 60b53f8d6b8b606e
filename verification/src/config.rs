//! Tunable constants: rate-limit spacing, retry policy and probe sizes.
//!
//! All durations are in milliseconds.

use vstd::prelude::*;

verus! {

/// Number of attempts a retried network call makes in total.
pub const RETRY_COUNT: u32 = 10;

/// Delay before retrying an ordinary failed network call.
pub const RETRY_DELAY_MS: u64 = 200;

/// Delay before retrying after the judge answered with HTTP 403.
pub const FORBIDDEN_DELAY_MS: u64 = 120_000;

/// Minimum spacing between any two dispatched submissions.
pub const SUBMIT_DELAY_MS: u64 = 5_000;

/// Cooldown before the same account may submit again.
pub const DELAY_PER_ACCOUNT_MS: u64 = 15_000;

/// Pause before fetching the identifier of a fresh submission.
pub const SUBMISSION_GET_DELAY_MS: u64 = 1_000;

/// Interval between two polls of a pending submission.
pub const CHECK_DELAY_MS: u64 = 2_000;

/// Pause between two account registrations.
pub const REGISTER_DELAY_MS: u64 = 5_000;

/// Length of a generated account handle.
pub const HANDLE_LEN: usize = 10;

/// Length of a generated account password.
pub const PASSWORD_LEN: usize = 10;

/// Size in bytes of one chunk of a test's encoded output.
pub const BLOCK: usize = 500;

/// Longest inline literal the judge exposes in a verdict.
pub const MAX_OUTPUT: usize = 500;

} // verus!
