//! The receiver's side of the control channel: how many times to dial the
//! sender and how long to wait after each failed attempt.

use vstd::prelude::*;

verus! {

/// Connection attempts made before giving up.
pub const CONNECT_ATTEMPTS: u32 = 10;

/// Milliseconds waited after each failed attempt.
pub const CONNECT_RETRY_DELAY_MS: u64 = 200;

/// The retry decisions of one persistent connect: the caller dials while
/// `should_attempt` holds and waits what `record_failure` returns after each failure.
pub struct ConnectRetry {
    max_attempts: u32,
    delay_ms: u64,
    failures: u32,
}

impl ConnectRetry {
    pub closed spec fn spec_max_attempts(&self) -> nat {
        self.max_attempts as nat
    }

    pub closed spec fn spec_delay_ms(&self) -> nat {
        self.delay_ms as nat
    }

    /// Attempts made so far, all of them failed.
    pub closed spec fn spec_failures(&self) -> nat {
        self.failures as nat
    }

    /// Milliseconds of waiting handed out so far.
    pub open spec fn waited_ms(&self) -> nat {
        self.spec_failures() * self.spec_delay_ms()
    }

    /// Whether another attempt is due.
    pub open spec fn spec_should_attempt(&self) -> bool {
        self.spec_failures() < self.spec_max_attempts()
    }

    pub fn new(max_attempts: u32, delay_ms: u64) -> (r: ConnectRetry)
        ensures
            r.spec_max_attempts() == max_attempts,
            r.spec_delay_ms() == delay_ms,
            r.spec_failures() == 0,
    {
        ConnectRetry { max_attempts, delay_ms, failures: 0 }
    }

    /// The policy of the control client: ten attempts, 200 ms apart.
    pub fn persistent() -> (r: ConnectRetry)
        ensures
            r.spec_max_attempts() == CONNECT_ATTEMPTS,
            r.spec_delay_ms() == CONNECT_RETRY_DELAY_MS,
            r.spec_failures() == 0,
    {
        ConnectRetry::new(CONNECT_ATTEMPTS, CONNECT_RETRY_DELAY_MS)
    }

    pub fn should_attempt(&self) -> (r: bool)
        ensures
            r == self.spec_should_attempt(),
    {
        self.failures < self.max_attempts
    }

    pub fn failures(&self) -> (r: u32)
        ensures
            r == self.spec_failures(),
    {
        self.failures
    }

    /// Records a failed attempt and gives the milliseconds to wait before the
    /// next decision.
    pub fn record_failure(&mut self) -> (wait_ms: u64)
        requires
            old(self).spec_should_attempt(),
        ensures
            final(self).spec_failures() == old(self).spec_failures() + 1,
            final(self).spec_max_attempts() == old(self).spec_max_attempts(),
            final(self).spec_delay_ms() == old(self).spec_delay_ms(),
            wait_ms == old(self).spec_delay_ms(),
            final(self).waited_ms() == old(self).waited_ms() + wait_ms,
    {
        self.failures = self.failures + 1;
        proof {
            vstd::arithmetic::mul::lemma_mul_is_distributive_add_other_way(
                self.delay_ms as int,
                old(self).failures as int,
                1,
            );
        }
        self.delay_ms
    }
}

/// Reconnect bound: `record_failure` is only called while another attempt is due
/// and adds one failure each time, so a policy that met nothing but failures
/// stops asking exactly when `max_attempts` attempts have failed, having handed
/// out one wait of `delay_ms` per attempt: `max_attempts * delay_ms` in all.
pub proof fn lemma_reconnect_bound(p: ConnectRetry)
    requires
        p.spec_failures() <= p.spec_max_attempts(),
    ensures
        p.spec_should_attempt() <==> p.spec_failures() < p.spec_max_attempts(),
        !p.spec_should_attempt() ==> p.spec_failures() == p.spec_max_attempts()
            && p.waited_ms() == p.spec_max_attempts() * p.spec_delay_ms(),
{
}

} // verus!
