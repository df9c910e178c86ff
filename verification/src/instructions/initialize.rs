use vstd::prelude::*;

use crate::constants::BASIS_POINTS_DIVISOR;
use crate::errors::FeeDistributorError;
use crate::state::DistributionPolicy;
use crate::state::DistributionProgress;

verus! {

/// One-time setup of the policy and progress records of a scope.
///
/// Rejects a share above 100%; otherwise returns a policy holding the
/// given parameters and a fresh progress record whose zeroed timestamp
/// allows an immediate first distribution.
pub fn handler(
    total_investor_allocation: u64,
    investor_fee_share_bps: u16,
    daily_cap_lamports: u64,
    min_payout_lamports: u64,
    total_investors: u32,
) -> (r: Result<(DistributionPolicy, DistributionProgress), FeeDistributorError>)
    ensures
        r is Err <==> investor_fee_share_bps > BASIS_POINTS_DIVISOR,
        r is Err ==> r->Err_0 == FeeDistributorError::InvalidBasisPoints,
        r is Ok ==> r->Ok_0.0 == (DistributionPolicy {
            total_investor_allocation,
            investor_fee_share_bps,
            daily_cap_lamports,
            min_payout_lamports,
        }),
        r is Ok ==> r->Ok_0.1 == (DistributionProgress {
            last_distribution_ts: 0,
            current_day_claimed: 0,
            current_day_distributed_investors: 0,
            current_day_distributed_creator: 0,
            carry_over_dust: 0,
            pagination_cursor: 0,
            day_completed: false,
            total_investors,
        }),
        r is Ok ==> r->Ok_0.0.wf() && r->Ok_0.1.wf() && r->Ok_0.1.within_limits(r->Ok_0.0),
{
    if investor_fee_share_bps as u64 > BASIS_POINTS_DIVISOR {
        return Err(FeeDistributorError::InvalidBasisPoints);
    }
    let policy = DistributionPolicy {
        total_investor_allocation,
        investor_fee_share_bps,
        daily_cap_lamports,
        min_payout_lamports,
    };
    let progress = DistributionProgress {
        last_distribution_ts: 0,
        current_day_claimed: 0,
        current_day_distributed_investors: 0,
        current_day_distributed_creator: 0,
        carry_over_dust: 0,
        pagination_cursor: 0,
        day_completed: false,
        total_investors,
    };
    Ok((policy, progress))
}

} // verus!
