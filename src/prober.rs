//! Readiness probing of a local TCP port.
//!
//! The prober decides; the caller performs the connection attempts and the
//! sleeps it asks for. A run is bounded by `attempts` connection attempts with
//! a sleep of `delay_ms` after each failed one, so a port that never opens is
//! given up on after `attempts * delay_ms` milliseconds of sleeping.

use vstd::prelude::*;

verus! {

/// What the caller does after reporting one connection attempt.
#[derive(Debug, Clone, Copy, PartialEq, Eq, Structural)]
pub enum ProbeStep {
    /// The port accepted the connection: the backend is ready.
    Ready,
    /// The port refused: sleep this long, then ask again.
    Sleep { ms: u64 },
}

/// State of one readiness wait.
#[derive(Debug, Clone, Copy, PartialEq, Eq, Structural)]
pub struct Prober {
    /// Connection attempts allowed in all.
    pub attempts: u32,
    /// Pause after each refused attempt, in milliseconds.
    pub delay_ms: u64,
    /// Refused attempts so far.
    pub made: u32,
}

impl Prober {
    pub open spec fn wf(self) -> bool {
        self.made <= self.attempts
    }

    /// Whether another connection attempt is owed.
    pub open spec fn can_connect(self) -> bool {
        self.made < self.attempts
    }

    /// Milliseconds slept over the remaining attempts if all are refused.
    pub open spec fn remaining_ms(self) -> nat {
        (self.attempts - self.made) as nat * self.delay_ms as nat
    }

    /// Milliseconds slept so far.
    pub open spec fn slept_ms(self) -> nat {
        self.made as nat * self.delay_ms as nat
    }

    /// The state after reporting one attempt.
    pub open spec fn after(self, connected: bool) -> Prober {
        if connected {
            self
        } else {
            Prober { made: (self.made + 1) as u32, ..self }
        }
    }

    /// The step handed back for one attempt.
    pub open spec fn step_for(self, connected: bool) -> ProbeStep {
        if connected {
            ProbeStep::Ready
        } else {
            ProbeStep::Sleep { ms: self.delay_ms }
        }
    }

    /// Outcome of a whole wait in which the i-th connection attempt from this
    /// state succeeds exactly when `probes[i]` holds: whether the port was
    /// found ready, and how many milliseconds were slept from here on.
    pub open spec fn run(self, probes: Seq<bool>) -> (bool, nat)
        decreases probes.len(),
    {
        if !self.can_connect() || probes.len() == 0 {
            (false, 0)
        } else if probes[0] {
            (true, 0)
        } else {
            let rest = self.after(false).run(probes.drop_first());
            (rest.0, rest.1 + self.delay_ms as nat)
        }
    }

    /// A fresh wait with a budget of `attempts` attempts, `delay_ms` apart.
    pub fn new(attempts: u32, delay_ms: u64) -> (p: Prober)
        ensures
            p == fresh(attempts, delay_ms),
            p.wf(),
    {
        Prober { attempts, delay_ms, made: 0 }
    }

    /// Whether the budget allows another attempt; once this is false the wait
    /// has timed out.
    pub fn should_connect(&self) -> (r: bool)
        ensures
            r == self.can_connect(),
    {
        self.made < self.attempts
    }

    /// Reports the result of one connection attempt.
    pub fn record(&mut self, connected: bool) -> (r: ProbeStep)
        requires
            old(self).wf(),
            old(self).can_connect(),
        ensures
            *final(self) == old(self).after(connected),
            r == old(self).step_for(connected),
            final(self).wf(),
    {
        if connected {
            ProbeStep::Ready
        } else {
            self.made = self.made + 1;
            ProbeStep::Sleep { ms: self.delay_ms }
        }
    }
}

/// The state in which a wait starts.
pub open spec fn fresh(attempts: u32, delay_ms: u64) -> Prober {
    Prober { attempts, delay_ms, made: 0 }
}

/// The whole sleeping budget of a wait, in milliseconds.
pub open spec fn budget_ms(attempts: u32, delay_ms: u64) -> nat {
    attempts as nat * delay_ms as nat
}

/// Milliseconds slept before attempt `k` (counting from zero).
pub open spec fn sleep_before(k: nat, delay_ms: u64) -> nat {
    k * delay_ms as nat
}

/// A port that never opens: once the budget of `attempts` attempts is spent
/// the wait reports not ready, after sleeping exactly `attempts * delay_ms`
/// milliseconds, the whole budget and no more.
pub proof fn lemma_never_open_times_out(attempts: u32, delay_ms: u64, probes: Seq<bool>)
    requires
        probes.len() >= attempts,
        forall|i: int| 0 <= i < probes.len() ==> !probes[i],
    ensures
        fresh(attempts, delay_ms).run(probes) == (false, budget_ms(attempts, delay_ms)),
{
    lemma_run_all_refused(fresh(attempts, delay_ms), probes);
}

proof fn lemma_run_all_refused(p: Prober, probes: Seq<bool>)
    requires
        p.wf(),
        probes.len() >= p.attempts - p.made,
        forall|i: int| 0 <= i < probes.len() ==> !probes[i],
    ensures
        p.run(probes) == (false, p.remaining_ms()),
    decreases probes.len(),
{
    if p.can_connect() {
        let q = p.after(false);
        let rest = probes.drop_first();
        assert(!probes[0]);
        assert forall|i: int| 0 <= i < rest.len() implies !rest[i] by {
            assert(rest[i] == probes[i + 1]);
        }
        lemma_run_all_refused(q, rest);
        assert((p.attempts - p.made) as nat * p.delay_ms as nat == (q.attempts - q.made) as nat
            * p.delay_ms as nat + p.delay_ms as nat) by (nonlinear_arith)
            requires
                q.attempts == p.attempts,
                q.made == p.made + 1,
                p.made < p.attempts,
        ;
    } else {
        assert(p.remaining_ms() == 0) by (nonlinear_arith)
            requires
                p.made == p.attempts,
                p.remaining_ms() == (p.attempts - p.made) as nat * p.delay_ms as nat,
        ;
    }
}

/// A port that opens within the budget: when the first `k` attempts are
/// refused and attempt `k` (counting from zero, `k < attempts`) is accepted,
/// the wait reports ready after sleeping `k * delay_ms` milliseconds, which is
/// short of the full budget whenever the delay is positive.
pub proof fn lemma_open_port_is_ready_early(
    attempts: u32,
    delay_ms: u64,
    probes: Seq<bool>,
    k: nat,
)
    requires
        k < attempts,
        k < probes.len(),
        probes[k as int],
        forall|i: int| 0 <= i < k ==> !probes[i],
    ensures
        fresh(attempts, delay_ms).run(probes) == (true, sleep_before(k, delay_ms)),
        delay_ms > 0 ==> sleep_before(k, delay_ms) < budget_ms(attempts, delay_ms),
{
    lemma_run_opens_at(fresh(attempts, delay_ms), probes, k);
    if delay_ms > 0 {
        assert(k * delay_ms < attempts as nat * delay_ms as nat) by (nonlinear_arith)
            requires
                k < attempts,
                delay_ms > 0,
        ;
    }
}

proof fn lemma_run_opens_at(p: Prober, probes: Seq<bool>, k: nat)
    requires
        p.wf(),
        p.made + k < p.attempts,
        k < probes.len(),
        probes[k as int],
        forall|i: int| 0 <= i < k ==> !probes[i],
    ensures
        p.run(probes) == (true, sleep_before(k, p.delay_ms)),
    decreases k,
{
    if k > 0 {
        let q = p.after(false);
        let rest = probes.drop_first();
        assert(!probes[0]);
        assert forall|i: int| 0 <= i < (k - 1) as nat implies !rest[i] by {
            assert(rest[i] == probes[i + 1]);
        }
        lemma_run_opens_at(q, rest, (k - 1) as nat);
        assert(k * p.delay_ms as nat == (k - 1) as nat * p.delay_ms as nat + p.delay_ms as nat)
            by (nonlinear_arith)
            requires
                k > 0,
        ;
    }
}

} // verus!
