use vstd::prelude::*;

use crate::constants::SECONDS_PER_DAY;
use crate::constants::BASIS_POINTS_DIVISOR;

verus! {

/// Immutable configuration of one distribution scope.
///
/// The host keys this record by its vault identifier; the logic here only
/// reads the four numeric policy fields.
#[derive(Clone, Copy, Debug, PartialEq, Eq, Structural)]
pub struct DistributionPolicy {
    /// Total investor allocation minted at genesis (Y0), the denominator
    /// of the locked-fraction calculation.
    pub total_investor_allocation: u64,
    /// Maximum investor fee share in basis points (0-10000).
    /// The effective share is the minimum of this and the locked fraction.
    pub investor_fee_share_bps: u16,
    /// Optional daily cap on investor distributions in quote lamports;
    /// 0 means no cap.
    pub daily_cap_lamports: u64,
    /// Minimum payout per investor; anything smaller is left as dust.
    pub min_payout_lamports: u64,
}

impl DistributionPolicy {
    /// The policy invariant: the configured share never exceeds 100%.
    pub open spec fn wf(self) -> bool {
        self.investor_fee_share_bps <= BASIS_POINTS_DIVISOR
    }
}

/// Mutable per-scope record tracking one day's distribution across pages.
///
/// This is the sole cross-call state of the state machine; it is read at
/// the start of a distribute call and rewritten once, at commit.
#[derive(Clone, Copy, Debug, PartialEq, Eq, Structural)]
pub struct DistributionProgress {
    /// Timestamp at which the current day was opened.
    pub last_distribution_ts: i64,
    /// Quote fees claimed when the current day was opened.
    pub current_day_claimed: u64,
    /// Quote fees paid to investors so far in the current day.
    pub current_day_distributed_investors: u64,
    /// Quote fees sent to the creator when the current day closed.
    pub current_day_distributed_creator: u64,
    /// Dust carried over from previous pages of the current day.
    pub carry_over_dust: u64,
    /// Next unprocessed investor index.
    pub pagination_cursor: u32,
    /// Whether the current day's distribution is completed.
    pub day_completed: bool,
    /// Size of the investor set, fixed for the life of a day.
    pub total_investors: u32,
}

impl DistributionProgress {
    /// The progress invariant, held at every commit boundary: the cursor
    /// stays inside the investor set, a completed day has consumed the
    /// whole set, and the day-open timestamp is a clock reading far
    /// enough from overflow for the 24-hour gate to be computed.
    pub open spec fn wf(self) -> bool {
        &&& self.pagination_cursor <= self.total_investors
        &&& self.day_completed ==> self.pagination_cursor == self.total_investors
        &&& 0 <= self.last_distribution_ts <= i64::MAX - SECONDS_PER_DAY
    }

    /// Distribution limits, held at every commit boundary: investors
    /// never receive more than the day's claim, and never more than the
    /// daily cap whenever one is configured.
    pub open spec fn within_limits(self, policy: DistributionPolicy) -> bool {
        &&& self.current_day_distributed_investors <= self.current_day_claimed
        &&& policy.daily_cap_lamports > 0
            ==> self.current_day_distributed_investors <= policy.daily_cap_lamports
    }

    /// Whether `current_ts` lies in a later 24-hour epoch than the one
    /// opened at `last_distribution_ts`.
    pub open spec fn spec_is_new_day(self, current_ts: i64) -> bool {
        current_ts >= self.last_distribution_ts + SECONDS_PER_DAY
    }

    /// Check if a new day has started.
    pub fn is_new_day(&self, current_ts: i64) -> (r: bool)
        requires
            self.wf(),
        ensures
            r == self.spec_is_new_day(current_ts),
    {
        current_ts >= self.last_distribution_ts + SECONDS_PER_DAY
    }

    /// The state a progress record takes when a new day opens at
    /// `current_ts`: all day counters cleared, the investor set kept.
    pub open spec fn spec_day_start(self, current_ts: i64) -> DistributionProgress {
        DistributionProgress {
            last_distribution_ts: current_ts,
            current_day_claimed: 0,
            current_day_distributed_investors: 0,
            current_day_distributed_creator: 0,
            carry_over_dust: 0,
            pagination_cursor: 0,
            day_completed: false,
            total_investors: self.total_investors,
        }
    }

    /// Reset for a new day.
    pub fn start_new_day(&mut self, current_ts: i64)
        requires
            0 <= current_ts <= i64::MAX - SECONDS_PER_DAY,
        ensures
            *final(self) == old(self).spec_day_start(current_ts),
            final(self).wf(),
    {
        self.last_distribution_ts = current_ts;
        self.current_day_claimed = 0;
        self.current_day_distributed_investors = 0;
        self.current_day_distributed_creator = 0;
        self.carry_over_dust = 0;
        self.pagination_cursor = 0;
        self.day_completed = false;
    }
}

} // verus!
