use vstd::prelude::*;

use crate::token_bucket::TokenBucket;
use std::sync::Arc;

verus! {

use vstd::pervasive::unreached;

/// Capacity of the process-wide bucket.
pub const DEFAULT_MAX_TOKENS: i64 = 1_000;

/// Level the process-wide bucket starts at (a full bucket).
pub const DEFAULT_INITIAL_LEVEL: i64 = 1_000;

/// Milliseconds per token for the process-wide bucket.
pub const DEFAULT_REFILL_RATE_MS: i64 = 11;

#[verifier::external_type_specification]
#[verifier::external_body]
#[verifier::reject_recursive_types(T)]
pub struct ExMutex<T: ?Sized>(tokio::sync::Mutex<T>);

/// The shared state holder: exactly one token bucket per process, owned by a
/// mutual-exclusion guard so that concurrent request handlers run their
/// admission checks one at a time. Handlers clone the holder and lock the
/// bucket only for the duration of one check.
#[derive(Clone)]
pub struct SharedState {
    pub token_bucket: Arc<tokio::sync::Mutex<TokenBucket>>,
}

/// The token bucket a holder was constructed around: the value its
/// mutual-exclusion guard took ownership of. Requests run against that
/// bucket alone; every mutation goes through the guard, outside this
/// library's view, so only the construction-time value is named.
pub uninterp spec fn held_bucket(s: SharedState) -> TokenBucket;

/// Relies on tokio::sync::Mutex::new and std::sync::Arc::new: wraps the
/// bucket in a mutual-exclusion guard (released on every exit path of a lock
/// holder, even a panicking or cancelled one) behind a shared handle. The
/// returned holder owns exactly the given bucket.
#[verifier::external_body]
fn share_bucket(bucket: TokenBucket) -> (r: SharedState)
    ensures
        held_bucket(r) == bucket,
{
    SharedState { token_bucket: Arc::new(tokio::sync::Mutex::new(bucket)) }
}

impl SharedState {
    /// Builds the process-wide holder around one bucket with the default
    /// configuration — a full bucket, its initial level equal to its
    /// capacity — which is provably valid, so construction cannot fail.
    pub fn new() -> (r: SharedState)
        ensures
            held_bucket(r).max_tokens == DEFAULT_MAX_TOKENS,
            held_bucket(r).current_level == DEFAULT_INITIAL_LEVEL,
            held_bucket(r).refill_rate == DEFAULT_REFILL_RATE_MS,
            held_bucket(r).valid(),
    {
        let bucket = match TokenBucket::new(
            DEFAULT_MAX_TOKENS,
            DEFAULT_INITIAL_LEVEL,
            DEFAULT_REFILL_RATE_MS,
        ) {
            Ok(b) => b,
            Err(_) => unreached(),
        };
        share_bucket(bucket)
    }
}

} // verus!
