use backoff::backoff::Backoff;
use vstd::prelude::*;

verus! {

#[verifier::external_type_specification]
#[verifier::external_body]
#[verifier::reject_recursive_types(C)]
pub struct ExExponentialBackoff<C>(backoff::exponential::ExponentialBackoff<C>);

#[verifier::external_type_specification]
#[verifier::external_body]
pub struct ExSystemClock(backoff::SystemClock);

/// How a remote call failed, as far as the retry policy needs to know.
#[derive(Debug, Clone, Copy, PartialEq, Eq, Structural)]
pub enum RemoteFailure {
    /// The server answered with this HTTP status.
    Status(u16),
    /// The connection or the transport failed before an answer came.
    Transport,
    /// Anything else: a malformed request, a missing credential, a decoding error.
    Other,
}

/// Informational, redirect and server-error answers, and transport failures,
/// may pass on a second try; everything else will not.
pub open spec fn is_transient(f: RemoteFailure) -> bool {
    match f {
        RemoteFailure::Status(code) => (100 <= code < 200) || (300 <= code < 400) || (500 <= code < 600),
        RemoteFailure::Transport => true,
        RemoteFailure::Other => false,
    }
}

/// What to do after a failed attempt.
#[derive(Debug, Clone, Copy, PartialEq, Eq, Structural)]
pub enum RetryDecision {
    /// Wait this many milliseconds, then call again.
    Retry(u64),
    /// Report the failure to the caller.
    GiveUp,
}

pub fn classify(f: &RemoteFailure) -> (r: bool)
    ensures
        r == is_transient(*f),
{
    match f {
        RemoteFailure::Status(code) => (100 <= *code && *code < 200) || (300 <= *code && *code < 400) || (500
            <= *code && *code < 600),
        RemoteFailure::Transport => true,
        RemoteFailure::Other => false,
    }
}

/// The decision on a failure, given the delay that the backoff policy
/// offered for it (`None` once the policy has run out of time).
pub fn decide(f: &RemoteFailure, delay_ms: Option<u64>) -> (r: RetryDecision)
    ensures
        r == (if is_transient(*f) && delay_ms is Some {
            RetryDecision::Retry(delay_ms->Some_0)
        } else {
            RetryDecision::GiveUp
        }),
{
    if classify(f) {
        match delay_ms {
            Some(d) => RetryDecision::Retry(d),
            None => RetryDecision::GiveUp,
        }
    } else {
        RetryDecision::GiveUp
    }
}

/// Relies on `ExponentialBackoff::default()` of the backoff crate: exponential
/// growth from half a second, capped, randomised, within fifteen minutes overall.
#[verifier::external_body]
fn default_policy() -> backoff::ExponentialBackoff {
    backoff::ExponentialBackoff::default()
}

/// Relies on `Backoff::next_backoff` of `ExponentialBackoff`: the next
/// randomised delay, or `None` once the policy's elapsed-time limit is passed.
/// The delay depends on chance and on the clock.
#[verifier::external_body]
fn next_delay_ms(policy: &mut backoff::ExponentialBackoff) -> Option<u64> {
    policy.next_backoff().map(|d| d.as_millis() as u64)
}

/// The retry state of one remote call: the backoff policy and the number of
/// retries granted so far.
pub struct Retrier {
    policy: backoff::ExponentialBackoff,
    retries: u64,
}

impl Retrier {
    pub closed spec fn retries_spec(&self) -> nat {
        self.retries as nat
    }

    pub fn new() -> (r: Retrier)
        ensures
            r.retries_spec() == 0,
    {
        Retrier { policy: default_policy(), retries: 0 }
    }

    pub fn retries(&self) -> (r: u64)
        ensures
            r == self.retries_spec(),
    {
        self.retries
    }

    /// Decides on a failed attempt. A permanent failure is given up at once,
    /// without consulting the policy; a transient one is retried after the
    /// policy's delay, while the policy offers one.
    pub fn on_failure(&mut self, f: &RemoteFailure) -> (r: RetryDecision)
        ensures
            !is_transient(*f) ==> r == RetryDecision::GiveUp,
            r is Retry ==> is_transient(*f),
            r is Retry ==> final(self).retries_spec() == if old(self).retries_spec() < u64::MAX {
                old(self).retries_spec() + 1
            } else {
                old(self).retries_spec()
            },
            r is GiveUp ==> final(self).retries_spec() == old(self).retries_spec(),
    {
        if !classify(f) {
            return RetryDecision::GiveUp;
        }
        let delay = next_delay_ms(&mut self.policy);
        let r = decide(f, delay);
        if let RetryDecision::Retry(_) = r {
            self.retries = self.retries.saturating_add(1);
        }
        r
    }
}

} // verus!
