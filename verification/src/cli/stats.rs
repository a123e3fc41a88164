//! Counters of the `stats` command.

use crate::engine::state::{AttemptOutcome, AttemptOutcomeView};
use vstd::prelude::*;

verus! {

/// Counts of attempt outcomes for one template. Every counter stops at `u32::MAX`.
#[derive(Clone, Copy, Debug, PartialEq, Eq, Structural)]
pub struct TemplateStats {
    /// Reviews that ended with a decision.
    pub success_count: u32,
    /// Blocks needed over all those reviews.
    pub total_blocks: u32,
    pub not_spawned: u32,
    pub no_decision: u32,
    pub bad_session_id: u32,
    /// Attempts still pending.
    pub pending: u32,
}

/// `a + b`, held at `u32::MAX`.
pub open spec fn capped(a: int, b: int) -> u32 {
    if a + b > u32::MAX {
        u32::MAX
    } else {
        (a + b) as u32
    }
}

/// The counters after one more outcome is counted.
pub open spec fn counted(stats: TemplateStats, outcome: AttemptOutcomeView) -> TemplateStats {
    match outcome {
        AttemptOutcomeView::Pending => TemplateStats { pending: capped(stats.pending as int, 1), ..stats },
        AttemptOutcomeView::Success { blocks_needed, .. } => TemplateStats {
            success_count: capped(stats.success_count as int, 1),
            total_blocks: capped(stats.total_blocks as int, blocks_needed as int),
            ..stats
        },
        AttemptOutcomeView::NotSpawned => TemplateStats {
            not_spawned: capped(stats.not_spawned as int, 1),
            ..stats
        },
        AttemptOutcomeView::NoDecision => TemplateStats {
            no_decision: capped(stats.no_decision as int, 1),
            ..stats
        },
        AttemptOutcomeView::BadSessionId => TemplateStats {
            bad_session_id: capped(stats.bad_session_id as int, 1),
            ..stats
        },
    }
}

impl Default for TemplateStats {
    fn default() -> (r: Self)
        ensures
            r == (TemplateStats {
                success_count: 0,
                total_blocks: 0,
                not_spawned: 0,
                no_decision: 0,
                bad_session_id: 0,
                pending: 0,
            }),
    {
        TemplateStats {
            success_count: 0,
            total_blocks: 0,
            not_spawned: 0,
            no_decision: 0,
            bad_session_id: 0,
            pending: 0,
        }
    }
}

impl TemplateStats {
    /// Counts one attempt outcome.
    pub fn record(&mut self, outcome: &AttemptOutcome)
        ensures
            *final(self) == counted(*old(self), outcome@),
    {
        match outcome {
            AttemptOutcome::Pending => {
                self.pending = self.pending.saturating_add(1);
            },
            AttemptOutcome::Success { blocks_needed, .. } => {
                self.success_count = self.success_count.saturating_add(1);
                self.total_blocks = self.total_blocks.saturating_add(*blocks_needed);
            },
            AttemptOutcome::NotSpawned => {
                self.not_spawned = self.not_spawned.saturating_add(1);
            },
            AttemptOutcome::NoDecision => {
                self.no_decision = self.no_decision.saturating_add(1);
            },
            AttemptOutcome::BadSessionId => {
                self.bad_session_id = self.bad_session_id.saturating_add(1);
            },
        }
    }

    /// The number of failures: attempts that ended without a decision.
    pub fn failure_count(&self) -> (r: u32)
        ensures
            r == capped(self.not_spawned + self.no_decision, self.bad_session_id as int),
    {
        self.not_spawned.saturating_add(self.no_decision).saturating_add(self.bad_session_id)
    }
}

} // verus!
