//! Council test agents: the phases of a coordinated (Sybil) group and the
//! vote counters of an agent.

use vstd::prelude::*;
use crate::clock::{now_unix_secs, CLOCK_BOUND};

verus! {

/// The phase a coordinated group is in.
#[derive(PartialEq, Eq, Structural, Clone, Copy, Debug)]
pub enum SybilPhase {
    BuildingTrust,
    CoordinatedAttack,
    Contamination,
}

/// The phase after `elapsed` seconds: building trust for the first ten
/// seconds, attacking until twenty-five, contaminating afterwards.
pub open spec fn phase_after(elapsed: int) -> SybilPhase {
    if elapsed < 10 {
        SybilPhase::BuildingTrust
    } else if elapsed < 25 {
        SybilPhase::CoordinatedAttack
    } else {
        SybilPhase::Contamination
    }
}

/// The state of a coordinated group; `start_time` is in Unix seconds.
pub struct SybilState {
    pub phase: SybilPhase,
    pub contamination_attempts: usize,
    pub target_agents: Vec<String>,
    pub start_time: Option<i64>,
}

impl SybilState {
    /// A group that starts building trust at `now`.
    pub fn new_at(now: i64) -> (s: SybilState)
        ensures
            s.phase == SybilPhase::BuildingTrust,
            s.contamination_attempts == 0,
            s.target_agents@.len() == 0,
            s.start_time == Some(now),
    {
        SybilState { phase: SybilPhase::BuildingTrust, contamination_attempts: 0, target_agents: Vec::new(), start_time: Some(now) }
    }

    /// A group that starts building trust now.
    pub fn new() -> (s: SybilState)
        ensures
            s.phase == SybilPhase::BuildingTrust,
            s.contamination_attempts == 0,
            s.target_agents@.len() == 0,
            s.start_time matches Some(t) && -CLOCK_BOUND < t < CLOCK_BOUND,
    {
        SybilState::new_at(now_unix_secs())
    }

    /// Moves the group to the phase for the time elapsed since it started
    /// (no start time counts as no time elapsed).
    pub fn update_phase_at(&mut self, now: i64)
        requires
            -CLOCK_BOUND < now < CLOCK_BOUND,
            old(self).start_time matches Some(t) ==> -CLOCK_BOUND < t < CLOCK_BOUND,
        ensures
            final(self).phase == phase_after(match old(self).start_time {
                Some(t) => now - t,
                None => 0,
            }),
            final(self).start_time == old(self).start_time,
            final(self).contamination_attempts == old(self).contamination_attempts,
            final(self).target_agents == old(self).target_agents,
    {
        let elapsed: i64 = match self.start_time {
            Some(t) => now - t,
            None => 0,
        };
        if elapsed < 10 {
            self.phase = SybilPhase::BuildingTrust;
        } else if elapsed < 25 {
            self.phase = SybilPhase::CoordinatedAttack;
        } else {
            self.phase = SybilPhase::Contamination;
        }
    }

    /// Moves the group to the phase for the time elapsed until now.
    pub fn update_phase(&mut self)
        requires
            old(self).start_time matches Some(t) ==> -CLOCK_BOUND < t < CLOCK_BOUND,
        ensures
            final(self).start_time == old(self).start_time,
            old(self).start_time is None ==> final(self).phase == SybilPhase::BuildingTrust,
    {
        let now = now_unix_secs();
        self.update_phase_at(now);
    }
}

/// Phases only move forward as time passes.
pub proof fn lemma_phases_advance(e1: int, e2: int)
    requires
        e1 <= e2,
    ensures
        phase_after(e1) == SybilPhase::Contamination ==> phase_after(e2) == SybilPhase::Contamination,
        phase_after(e2) == SybilPhase::BuildingTrust ==> phase_after(e1) == SybilPhase::BuildingTrust,
{
}

/// The votes an agent has cast.
pub struct VoteStats {
    pub total: u64,
    pub approved: u64,
    pub rejected: u64,
}

impl VoteStats {
    /// Every vote is counted once, as approving or rejecting.
    pub open spec fn wf(&self) -> bool {
        self.total == self.approved + self.rejected
    }

    /// No votes yet.
    pub fn new() -> (s: VoteStats)
        ensures
            s.wf(),
            s.total == 0 && s.approved == 0 && s.rejected == 0,
    {
        VoteStats { total: 0, approved: 0, rejected: 0 }
    }

    /// Counts one vote.
    pub fn record_vote(&mut self, approved: bool)
        requires
            old(self).wf(),
            old(self).total < u64::MAX,
        ensures
            final(self).wf(),
            final(self).total == old(self).total + 1,
            approved ==> final(self).approved == old(self).approved + 1 && final(self).rejected == old(self).rejected,
            !approved ==> final(self).rejected == old(self).rejected + 1 && final(self).approved == old(self).approved,
    {
        self.total = self.total + 1;
        if approved {
            self.approved = self.approved + 1;
        } else {
            self.rejected = self.rejected + 1;
        }
    }

    /// The counts as (total, approved, rejected).
    pub fn stats(&self) -> (r: (u64, u64, u64))
        ensures
            r == (self.total, self.approved, self.rejected),
    {
        (self.total, self.approved, self.rejected)
    }
}

} // verus!
