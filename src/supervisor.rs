//! The process supervisor: the single slot that holds the current backend
//! child, the claim that lets exactly one shutdown path terminate it, and the
//! launch settings handed to the child.

use vstd::prelude::*;
use crate::termination::{Action, Platform, Termination, start_state};

verus! {

/// What the supervisor's slot holds.
#[derive(Debug, Clone, Copy, PartialEq, Eq, Structural)]
pub enum Slot {
    /// No child: none was spawned, or the last one is gone.
    Empty,
    /// A live child, with its process id (and, on POSIX, its group id).
    Live { pid: u32 },
    /// A child whose termination has been claimed and is under way.
    Terminating { pid: u32 },
}

/// Why a child could not be adopted.
#[derive(Debug, Clone, Copy, PartialEq, Eq, Structural)]
pub enum SupervisorError {
    /// The slot already holds a child: the backend is a singleton.
    AlreadyRunning,
}

/// The supervisor of the backend child.
#[derive(Debug, Clone, Copy, PartialEq, Eq, Structural)]
pub struct Supervisor {
    pub platform: Platform,
    pub slot: Slot,
}

impl Supervisor {
    /// The supervisor and the answer after one termination claim.
    pub open spec fn claimed(self) -> (Supervisor, Option<u32>) {
        match self.slot {
            Slot::Live { pid } => (Supervisor { slot: Slot::Terminating { pid }, ..self }, Some(pid)),
            _ => (self, None),
        }
    }

    /// The supervisor after `n` termination claims, and how many of them were
    /// handed a process to kill.
    pub open spec fn claimed_n(self, n: nat) -> (Supervisor, nat)
        decreases n,
    {
        if n == 0 {
            (self, 0)
        } else {
            let (s, r) = self.claimed();
            let (t, k) = s.claimed_n((n - 1) as nat);
            (t, if r.is_some() { k + 1 } else { k })
        }
    }

    /// A supervisor for `platform` that holds no child.
    pub fn new(platform: Platform) -> (s: Supervisor)
        ensures
            s == (Supervisor { platform, slot: Slot::Empty }),
    {
        Supervisor { platform, slot: Slot::Empty }
    }

    /// Takes a freshly spawned child with process id `pid` into the slot.
    pub fn adopt(&mut self, pid: u32) -> (r: Result<(), SupervisorError>)
        ensures
            old(self).slot == Slot::Empty ==> r is Ok && *final(self) == (Supervisor {
                slot: Slot::Live { pid },
                ..*old(self)
            }),
            old(self).slot != Slot::Empty ==> r == Err::<(), SupervisorError>(
                SupervisorError::AlreadyRunning,
            ) && *final(self) == *old(self),
    {
        match self.slot {
            Slot::Empty => {
                self.slot = Slot::Live { pid };
                Ok(())
            },
            _ => Err(SupervisorError::AlreadyRunning),
        }
    }

    /// Claims the termination of the child: the first caller is handed its
    /// process id, the started termination and its first action, and the slot
    /// no longer holds a live process; every later caller gets `None`.
    pub fn claim_termination(&mut self) -> (r: Option<(u32, Termination, Action)>)
        ensures
            *final(self) == old(self).claimed().0,
            r.is_some() == old(self).claimed().1.is_some(),
            r.is_some() ==> r.unwrap().0 == old(self).claimed().1.unwrap() && r.unwrap().1
                == start_state() && r.unwrap().2 == Action::StopGracefully,
            !final(self).is_live(),
    {
        match self.slot {
            Slot::Live { pid } => {
                self.slot = Slot::Terminating { pid };
                let (t, a) = Termination::start();
                Some((pid, t, a))
            },
            _ => None,
        }
    }

    /// Records that the termination of child `pid` is confirmed: the slot is
    /// emptied. Any other report leaves the supervisor unchanged.
    pub fn confirm_terminated(&mut self, pid: u32)
        ensures
            old(self).slot == (Slot::Terminating { pid }) ==> final(self).slot == Slot::Empty,
            old(self).slot != (Slot::Terminating { pid }) ==> *final(self) == *old(self),
            final(self).platform == old(self).platform,
    {
        if self.slot == (Slot::Terminating { pid }) {
            self.slot = Slot::Empty;
        }
    }

    /// Records that child `pid` was seen to have exited on its own.
    pub fn observe_exit(&mut self, pid: u32)
        ensures
            old(self).slot == (Slot::Live { pid }) ==> final(self).slot == Slot::Empty,
            old(self).slot != (Slot::Live { pid }) ==> *final(self) == *old(self),
            final(self).platform == old(self).platform,
    {
        if self.slot == (Slot::Live { pid }) {
            self.slot = Slot::Empty;
        }
    }

    pub open spec fn is_live(self) -> bool {
        self.slot is Live
    }

    /// Whether the slot holds a live child.
    pub fn has_live_child(&self) -> (r: bool)
        ensures
            r == self.is_live(),
    {
        match self.slot {
            Slot::Live { .. } => true,
            _ => false,
        }
    }
}

/// Termination is idempotent: however many times it is claimed (from any of
/// the shutdown paths, in any order), the kill sequence is handed out exactly
/// once when a live child was held and never otherwise, the later claims
/// change nothing, and no live child remains.
pub proof fn lemma_claim_idempotent(s: Supervisor, n: nat)
    requires
        n >= 1,
    ensures
        s.claimed_n(n).1 == (if s.is_live() { 1nat } else { 0nat }),
        s.claimed_n(n).0 == s.claimed().0,
        !s.claimed_n(n).0.is_live(),
    decreases n,
{
    let (t, r) = s.claimed();
    lemma_claims_after_first(t, (n - 1) as nat);
}

proof fn lemma_claims_after_first(t: Supervisor, n: nat)
    requires
        !t.is_live(),
    ensures
        t.claimed_n(n) == (t, 0nat),
    decreases n,
{
    if n > 0 {
        lemma_claims_after_first(t, (n - 1) as nat);
    }
}

} // verus!
