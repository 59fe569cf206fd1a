//! Retry policy for the transport layer.
//!
//! Every request the agent issues goes through a transport handle bound to
//! one `RetryPolicy`. The policy is immutable once constructed: it fixes how
//! many additional attempts may follow a failed one, and an optional base-URL
//! override that lets a test substitute a local responder without touching
//! the retry behaviour. The I/O itself lives outside this crate; the
//! decisions it must follow are verified here.

use vstd::prelude::*;

verus! {

/// Governs every request issued through one transport handle.
pub struct RetryPolicy {
    /// Additional attempts allowed after the first failed one.
    /// Zero means the very first failure is terminal.
    pub max_retries: u32,
    /// When present, requests are directed at this base URL instead of the
    /// platform's well-known endpoint. Retry behaviour is unaffected.
    pub base_url_override: Option<String>,
}

/// What the transport must do after an attempt has failed.
pub enum RetryStep {
    /// Wait one backoff interval, then attempt the request again.
    BackoffThenRetry,
    /// Give up: surface the failure to the caller as terminal.
    GiveUp,
}

/// A failed attempt leads to a backoff-and-retry exactly when the number of
/// retries already spent is below the policy's budget.
pub open spec fn retry_allowed(policy: RetryPolicy, retries_done: u32) -> bool {
    retries_done < policy.max_retries
}

impl RetryPolicy {
    /// A policy that retries `max_retries` times and targets the platform's
    /// default endpoint.
    pub fn new(max_retries: u32) -> (r: RetryPolicy)
        ensures
            r.max_retries == max_retries,
            r.base_url_override is None,
    {
        RetryPolicy { max_retries, base_url_override: None }
    }

    /// The same policy with a different retry budget.
    pub fn max_retries(self, max_retries: u32) -> (r: RetryPolicy)
        ensures
            r.max_retries == max_retries,
            r.base_url_override == self.base_url_override,
    {
        RetryPolicy { max_retries, ..self }
    }

    /// The same policy, with requests redirected to `base_url`. Used by
    /// tests to substitute a local responder; retries are unaffected.
    pub fn mock_base_url(self, base_url: String) -> (r: RetryPolicy)
        ensures
            r.max_retries == self.max_retries,
            r.base_url_override == Some(base_url),
    {
        RetryPolicy { base_url_override: Some(base_url), ..self }
    }

    /// Decides what follows a failed attempt, given how many retries have
    /// already been spent.
    pub fn after_failure(&self, retries_done: u32) -> (r: RetryStep)
        ensures
            r is BackoffThenRetry <==> retry_allowed(*self, retries_done),
    {
        if retries_done < self.max_retries {
            RetryStep::BackoffThenRetry
        } else {
            RetryStep::GiveUp
        }
    }
}

/// With a retry budget of zero, the first failure is terminal: no backoff
/// interval is ever waited and no second attempt is made, regardless of how
/// many failures the transport would go on to produce.
pub proof fn lemma_zero_budget_fails_fast(policy: RetryPolicy, retries_done: u32)
    requires
        policy.max_retries == 0,
    ensures
        !retry_allowed(policy, retries_done),
{
}

} // verus!
