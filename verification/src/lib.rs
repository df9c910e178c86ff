//! Paginated, permissionless distribution of claimed quote-token fees.
//!
//! Once per 24-hour epoch the accrued fees of a liquidity position are
//! claimed and then paid out page by page: each investor receives a share
//! proportional to how much of their allocation is still time-locked,
//! subject to an optional daily cap and a dust floor, and the remainder
//! goes to the creator when the last page closes the day.
//!
//! This crate holds the distribution logic itself: the day/page state
//! machine, the pro-rata/cap/dust arithmetic and the record invariants.
//! Reading accounts, claiming fees and moving token balances are left to
//! the host environment, which feeds plain values in and carries the
//! returned payout schedule out.

pub mod constants;
pub mod errors;
pub mod instructions;
pub mod state;

use vstd::prelude::*;

use crate::constants::BASIS_POINTS_DIVISOR;
use crate::constants::SECONDS_PER_DAY;
use crate::errors::FeeDistributorError;
use crate::instructions::distribute;
use crate::instructions::distribute::DistributeOutcome;
use crate::instructions::initialize;
use crate::state::DistributionPolicy;
use crate::state::DistributionProgress;

verus! {

/// Initialize the policy and progress records of a distribution scope.
pub fn initialize(
    total_investor_allocation: u64,
    investor_fee_share_bps: u16,
    daily_cap_lamports: u64,
    min_payout_lamports: u64,
    total_investors: u32,
) -> (r: Result<(DistributionPolicy, DistributionProgress), FeeDistributorError>)
    ensures
        r is Err <==> investor_fee_share_bps > BASIS_POINTS_DIVISOR,
        r is Err ==> r->Err_0 == FeeDistributorError::InvalidBasisPoints,
        r is Ok ==> r->Ok_0.0 == (DistributionPolicy {
            total_investor_allocation,
            investor_fee_share_bps,
            daily_cap_lamports,
            min_payout_lamports,
        }),
        r is Ok ==> r->Ok_0.1 == (DistributionProgress {
            last_distribution_ts: 0,
            current_day_claimed: 0,
            current_day_distributed_investors: 0,
            current_day_distributed_creator: 0,
            carry_over_dust: 0,
            pagination_cursor: 0,
            day_completed: false,
            total_investors,
        }),
        r is Ok ==> r->Ok_0.0.wf() && r->Ok_0.1.wf() && r->Ok_0.1.within_limits(r->Ok_0.0),
{
    initialize::handler(
        total_investor_allocation,
        investor_fee_share_bps,
        daily_cap_lamports,
        min_payout_lamports,
        total_investors,
    )
}

/// Distribute fees to investors: one paginated, permissionless call of
/// the day/page state machine. See `instructions::distribute::handler`.
pub fn distribute_fees(
    policy: &DistributionPolicy,
    progress: &mut DistributionProgress,
    current_ts: i64,
    page_size: u8,
    expected_cursor: u32,
    claimed_amount: u64,
    locked_amounts: &Vec<u64>,
    treasury_balance: u64,
) -> (r: Result<DistributeOutcome, FeeDistributorError>)
    requires
        policy.wf(),
        old(progress).wf(),
        old(progress).within_limits(*policy),
        0 <= current_ts <= i64::MAX - SECONDS_PER_DAY,
        distribute::page_accepted(*old(progress), current_ts, page_size, expected_cursor)
            ==> locked_amounts@.len() == distribute::accepted_page_end(
            *old(progress),
            current_ts,
            page_size,
        ) - distribute::accepted_page_start(*old(progress), current_ts),
    ensures
        ({
            let step_r = distribute::distribute_spec(
                *policy,
                *old(progress),
                current_ts,
                page_size,
                expected_cursor,
                claimed_amount,
                locked_amounts@,
                treasury_balance,
            );
            &&& (r is Err <==> step_r is Err)
            &&& r is Err ==> r->Err_0 == step_r->Err_0 && *final(progress) == *old(progress)
            &&& r is Ok ==> ({
                let step = step_r->Ok_0;
                let out = r->Ok_0;
                &&& *final(progress) == step.progress
                &&& distribute::payouts_view(out.payouts@) == step.payouts
                &&& out.page.page_start == step.page_start
                &&& out.page.page_end == step.page_end
                &&& out.page.investors_paid == step.investors_paid
                &&& out.page.total_amount == step.total_distributed
                &&& (out.fees_claimed is Some <==> step.new_day)
                &&& (out.day_closed is Some <==> step.day_closed)
            })
        }),
        r is Ok ==> final(progress).wf() && final(progress).within_limits(*policy),
        r is Ok ==> final(progress).pagination_cursor > 0,
        r is Ok ==> final(progress).total_investors == old(progress).total_investors,
{
    distribute::handler(
        policy,
        progress,
        current_ts,
        page_size,
        expected_cursor,
        claimed_amount,
        locked_amounts,
        treasury_balance,
    )
}

} // verus!
