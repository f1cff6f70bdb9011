//! Escalating termination of a process and everything it spawned.
//!
//! One termination request runs through a small state machine: a graceful stop
//! of the whole group, a bounded wait that polls for exit, a forceful kill if
//! the process is still there, and an absorbing terminated state. The caller
//! performs each action on the operating system and reports back whether the
//! process was seen to have exited.

use vstd::prelude::*;

verus! {

/// Pause between two polls for exit, in milliseconds.
pub const POLL_INTERVAL_MS: u64 = 50;

/// Polls made before escalating: with the interval above, about one second.
pub const MAX_POLLS: u32 = 20;

/// How the platform groups a process with its descendants.
#[derive(Debug, Clone, Copy, PartialEq, Eq, Structural)]
pub enum Platform {
    /// POSIX: the child leads a new process group whose id is its pid.
    ProcessGroup,
    /// Windows: the child is assigned to a job object that kills every member
    /// when its handle is closed.
    JobObject,
    /// Neither: only the child itself can be killed, and its descendants are
    /// cleaned up on a best-effort basis only.
    SingleProcess,
}

/// Phase of one termination request.
#[derive(Debug, Clone, Copy, PartialEq, Eq, Structural)]
pub enum Phase {
    /// The graceful stop has been issued.
    Requested,
    /// Waiting for exit; `polls` polls have been asked for so far.
    Waiting { polls: u32 },
    /// The forceful kill has been issued; the caller waits for the exit.
    Escalated,
    /// The process is gone and its handles may be released.
    Terminated,
}

/// What the caller does next, on the operating system.
#[derive(Debug, Clone, Copy, PartialEq, Eq, Structural)]
pub enum Action {
    /// Issue the platform's graceful stop (see [`graceful_command`]).
    StopGracefully,
    /// Sleep this long, then poll whether the process has exited.
    PollAfter { ms: u64 },
    /// Issue the platform's forceful kill (see [`forceful_command`]), then wait
    /// for the process to exit.
    KillForcefully,
    /// Release the handles (the job object, the child handle).
    Release,
    /// Nothing is left to do.
    Nothing,
}

/// A concrete operating-system request.
#[derive(Debug, Clone, Copy, PartialEq, Eq, Structural)]
pub enum Command {
    /// Send the terminate signal to process group `group`.
    SignalGroupTerminate { group: u32 },
    /// Send the kill signal to process group `group`.
    SignalGroupKill { group: u32 },
    /// Kill process `pid` directly.
    KillProcess { pid: u32 },
    /// Close the job object, which kills every process in it.
    CloseJob,
}

/// The request that stops the child gracefully.
pub open spec fn graceful_spec(platform: Platform, pid: u32) -> Command {
    match platform {
        Platform::ProcessGroup => Command::SignalGroupTerminate { group: pid },
        Platform::JobObject => Command::KillProcess { pid },
        Platform::SingleProcess => Command::KillProcess { pid },
    }
}

/// The request that kills the child and its group for good.
pub open spec fn forceful_spec(platform: Platform, pid: u32) -> Command {
    match platform {
        Platform::ProcessGroup => Command::SignalGroupKill { group: pid },
        Platform::JobObject => Command::CloseJob,
        Platform::SingleProcess => Command::KillProcess { pid },
    }
}

/// The graceful stop on `platform` for a child with process id `pid` (the
/// group id equals the pid, the child being the group's leader).
pub fn graceful_command(platform: Platform, pid: u32) -> (c: Command)
    ensures
        c == graceful_spec(platform, pid),
{
    match platform {
        Platform::ProcessGroup => Command::SignalGroupTerminate { group: pid },
        Platform::JobObject => Command::KillProcess { pid },
        Platform::SingleProcess => Command::KillProcess { pid },
    }
}

/// The forceful kill on `platform` for a child with process id `pid`.
pub fn forceful_command(platform: Platform, pid: u32) -> (c: Command)
    ensures
        c == forceful_spec(platform, pid),
{
    match platform {
        Platform::ProcessGroup => Command::SignalGroupKill { group: pid },
        Platform::JobObject => Command::CloseJob,
        Platform::SingleProcess => Command::KillProcess { pid },
    }
}

/// State of one termination request.
#[derive(Debug, Clone, Copy, PartialEq, Eq, Structural)]
pub struct Termination {
    pub phase: Phase,
}

impl Termination {
    pub open spec fn wf(self) -> bool {
        match self.phase {
            Phase::Waiting { polls } => 1 <= polls <= MAX_POLLS,
            _ => true,
        }
    }

    /// The phase and the action after a report of whether the process had
    /// exited when last looked at.
    pub open spec fn next(self, exited: bool) -> (Termination, Action) {
        match self.phase {
            Phase::Terminated => (self, Action::Nothing),
            Phase::Escalated => (Termination { phase: Phase::Terminated }, Action::Release),
            _ if exited => (Termination { phase: Phase::Terminated }, Action::Release),
            Phase::Requested => (
                Termination { phase: Phase::Waiting { polls: 1 } },
                Action::PollAfter { ms: POLL_INTERVAL_MS },
            ),
            Phase::Waiting { polls } => if polls < MAX_POLLS {
                (
                    Termination { phase: Phase::Waiting { polls: (polls + 1) as u32 } },
                    Action::PollAfter { ms: POLL_INTERVAL_MS },
                )
            } else {
                (Termination { phase: Phase::Escalated }, Action::KillForcefully)
            },
        }
    }

    /// The actions asked for over a sequence of reports, in order.
    pub open spec fn actions(self, reports: Seq<bool>) -> Seq<Action>
        decreases reports.len(),
    {
        if reports.len() == 0 {
            seq![]
        } else {
            let (t, a) = self.next(reports[0]);
            seq![a] + t.actions(reports.drop_first())
        }
    }

    /// The state after a sequence of reports.
    pub open spec fn after(self, reports: Seq<bool>) -> Termination
        decreases reports.len(),
    {
        if reports.len() == 0 {
            self
        } else {
            self.next(reports[0]).0.after(reports.drop_first())
        }
    }

    /// Reports that may still come before the state is terminated.
    pub open spec fn steps_left(self) -> nat {
        match self.phase {
            Phase::Requested => MAX_POLLS as nat + 2,
            Phase::Waiting { polls } => (MAX_POLLS - polls) as nat + 2,
            Phase::Escalated => 1,
            Phase::Terminated => 0,
        }
    }

    /// Polls that may still be asked for.
    pub open spec fn polls_left(self) -> nat {
        match self.phase {
            Phase::Requested => MAX_POLLS as nat,
            Phase::Waiting { polls } => (MAX_POLLS - polls) as nat,
            _ => 0,
        }
    }

    /// Starts a termination request: the graceful stop comes first.
    pub fn start() -> (r: (Termination, Action))
        ensures
            r.0 == (Termination { phase: Phase::Requested }),
            r.1 == Action::StopGracefully,
            r.0.wf(),
    {
        (Termination { phase: Phase::Requested }, Action::StopGracefully)
    }

    /// Takes the report of whether the process has exited and names the next
    /// action.
    pub fn report(&mut self, exited: bool) -> (a: Action)
        requires
            old(self).wf(),
        ensures
            (*final(self), a) == old(self).next(exited),
            final(self).wf(),
    {
        match self.phase {
            Phase::Terminated => Action::Nothing,
            Phase::Escalated => {
                self.phase = Phase::Terminated;
                Action::Release
            },
            Phase::Requested => {
                if exited {
                    self.phase = Phase::Terminated;
                    Action::Release
                } else {
                    self.phase = Phase::Waiting { polls: 1 };
                    Action::PollAfter { ms: POLL_INTERVAL_MS }
                }
            },
            Phase::Waiting { polls } => {
                if exited {
                    self.phase = Phase::Terminated;
                    Action::Release
                } else if polls < MAX_POLLS {
                    self.phase = Phase::Waiting { polls: polls + 1 };
                    Action::PollAfter { ms: POLL_INTERVAL_MS }
                } else {
                    self.phase = Phase::Escalated;
                    Action::KillForcefully
                }
            },
        }
    }

    /// Whether the request is over.
    pub fn is_terminated(&self) -> (r: bool)
        ensures
            r == (self.phase == Phase::Terminated),
    {
        match self.phase {
            Phase::Terminated => true,
            _ => false,
        }
    }
}

/// Milliseconds slept over a sequence of actions.
pub open spec fn slept_ms(actions: Seq<Action>) -> nat
    decreases actions.len(),
{
    if actions.len() == 0 {
        0
    } else {
        let rest = slept_ms(actions.drop_first());
        match actions[0] {
            Action::PollAfter { ms } => rest + ms as nat,
            _ => rest,
        }
    }
}

/// The escalation window: the most time spent polling, in milliseconds.
pub open spec fn window_ms() -> nat {
    MAX_POLLS as nat * POLL_INTERVAL_MS as nat
}

/// Every termination request ends within a bounded number of reports and a
/// bounded time: whatever the process does, after `steps_left` reports the
/// request is terminated and no more than the escalation window (about one
/// second) has been spent sleeping between polls.
pub proof fn lemma_terminates_within_window(t: Termination, reports: Seq<bool>)
    requires
        t.wf(),
        reports.len() >= t.steps_left(),
    ensures
        t.after(reports).phase == Phase::Terminated,
        slept_ms(t.actions(reports)) <= window_ms(),
{
    lemma_run_bounds(t, reports);
}

proof fn lemma_run_bounds(t: Termination, reports: Seq<bool>)
    requires
        t.wf(),
    ensures
        reports.len() >= t.steps_left() ==> t.after(reports).phase == Phase::Terminated,
        slept_ms(t.actions(reports)) <= t.polls_left() * POLL_INTERVAL_MS as nat,
        t.polls_left() <= MAX_POLLS,
    decreases reports.len(),
{
    if reports.len() > 0 {
        let (u, a) = t.next(reports[0]);
        lemma_run_bounds(u, reports.drop_first());
        let acts = t.actions(reports);
        assert(acts[0] == a);
        assert(acts.drop_first() =~= u.actions(reports.drop_first()));
        match a {
            Action::PollAfter { ms } => {
                assert(u.polls_left() + 1 == t.polls_left());
                assert(u.polls_left() * POLL_INTERVAL_MS as nat + POLL_INTERVAL_MS as nat
                    == t.polls_left() * POLL_INTERVAL_MS as nat) by (nonlinear_arith)
                    requires
                        u.polls_left() + 1 == t.polls_left(),
                ;
            },
            _ => {
                assert(u.polls_left() <= t.polls_left());
                assert(u.polls_left() * POLL_INTERVAL_MS as nat <= t.polls_left()
                    * POLL_INTERVAL_MS as nat) by (nonlinear_arith)
                    requires
                        u.polls_left() <= t.polls_left(),
                ;
            },
        }
    }
}

/// A process that ignores the graceful stop: when every report says it is
/// still running, the request polls `MAX_POLLS` times, `POLL_INTERVAL_MS`
/// apart, then kills it forcefully, and after the wait that follows the kill
/// it is terminated and its handles are released.
pub proof fn lemma_ignored_stop_escalates(reports: Seq<bool>)
    requires
        reports.len() == MAX_POLLS + 2,
        forall|i: int| 0 <= i < reports.len() ==> !reports[i],
    ensures
        forall|i: int|
            0 <= i < MAX_POLLS ==> #[trigger] start_state().actions(reports)[i] == (Action::PollAfter {
                ms: POLL_INTERVAL_MS,
            }),
        start_state().actions(reports)[MAX_POLLS as int] == Action::KillForcefully,
        start_state().actions(reports)[MAX_POLLS + 1] == Action::Release,
        start_state().actions(reports).len() == MAX_POLLS + 2,
        start_state().after(reports).phase == Phase::Terminated,
        slept_ms(start_state().actions(reports)) == window_ms(),
{
    lemma_ignored(start_state(), reports);
}

/// The state in which a request starts.
pub open spec fn start_state() -> Termination {
    Termination { phase: Phase::Requested }
}

proof fn lemma_ignored(t: Termination, reports: Seq<bool>)
    requires
        t.wf(),
        t.phase == Phase::Requested || t.phase is Waiting,
        reports.len() == t.polls_left() + 2,
        forall|i: int| 0 <= i < reports.len() ==> !reports[i],
    ensures
        forall|i: int|
            0 <= i < t.polls_left() ==> #[trigger] t.actions(reports)[i] == (Action::PollAfter {
                ms: POLL_INTERVAL_MS,
            }),
        t.actions(reports)[t.polls_left() as int] == Action::KillForcefully,
        t.actions(reports)[t.polls_left() as int + 1] == Action::Release,
        t.actions(reports).len() == reports.len(),
        t.after(reports).phase == Phase::Terminated,
        slept_ms(t.actions(reports)) == t.polls_left() * POLL_INTERVAL_MS as nat,
    decreases reports.len(),
{
    let (u, a) = t.next(reports[0]);
    let rest = reports.drop_first();
    assert forall|i: int| 0 <= i < rest.len() implies !rest[i] by {
        assert(rest[i] == reports[i + 1]);
    }
    let acts = t.actions(reports);
    assert(acts =~= seq![a] + u.actions(rest));
    if t.polls_left() == 0 {
        // Waiting at the last poll: escalate, then release.
        assert(u.phase == Phase::Escalated);
        let r2 = rest.drop_first();
        assert(r2.len() == 0);
        let (v, b) = u.next(rest[0]);
        assert(b == Action::Release);
        assert(v.actions(r2) =~= Seq::<Action>::empty());
        assert(u.actions(rest) =~= seq![b] + v.actions(r2));
        assert(u.actions(rest) =~= seq![Action::Release]);
        assert(seq![Action::Release].drop_first() =~= Seq::<Action>::empty());
        assert(slept_ms(Seq::<Action>::empty()) == 0);
        assert(seq![Action::Release][0] == Action::Release);
        assert(slept_ms(seq![Action::Release]) == 0);
        assert(v.after(r2) == v);
        assert(u.after(rest) == v);
        assert(acts.drop_first() =~= seq![Action::Release]);
        assert(slept_ms(acts) == slept_ms(acts.drop_first()));
    } else {
        lemma_ignored(u, rest);
        assert(u.polls_left() + 1 == t.polls_left());
        lemma_actions_len(u, rest);
        assert(acts.drop_first() =~= u.actions(rest));
        assert forall|i: int| 0 <= i < t.polls_left() implies #[trigger] acts[i] == (
        Action::PollAfter { ms: POLL_INTERVAL_MS }) by {
            if i > 0 {
                assert(acts[i] == u.actions(rest)[i - 1]);
            }
        }
        assert(acts[t.polls_left() as int] == u.actions(rest)[u.polls_left() as int]);
        assert(acts[t.polls_left() as int + 1] == u.actions(rest)[u.polls_left() as int + 1]);
        assert(u.polls_left() * POLL_INTERVAL_MS as nat + POLL_INTERVAL_MS as nat
            == t.polls_left() * POLL_INTERVAL_MS as nat) by (nonlinear_arith)
            requires
                u.polls_left() + 1 == t.polls_left(),
        ;
    }
}

proof fn lemma_actions_len(t: Termination, reports: Seq<bool>)
    ensures
        t.actions(reports).len() == reports.len(),
    decreases reports.len(),
{
    if reports.len() > 0 {
        lemma_actions_len(t.next(reports[0]).0, reports.drop_first());
    }
}

} // verus!
