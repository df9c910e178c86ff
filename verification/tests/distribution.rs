use investor_fee_distributor::errors::FeeDistributorError;
use investor_fee_distributor::instructions::distribute::CreatorPayoutDayClosed;
use investor_fee_distributor::instructions::distribute::QuoteFeesClaimed;
use investor_fee_distributor::distribute_fees;
use investor_fee_distributor::initialize;

const DAY: i64 = 86_400;

#[test]
fn scenario_a_single_page_pro_rata() {
    // Y0 = 1_000_000, two investors locked {400_000, 100_000},
    // share 8000 bps, claim 100_000: eligible = min(8000, 5000) = 5000,
    // quote = 50_000, weights 8000/2000 bps, payouts 40_000/10_000.
    let (policy, mut progress) = initialize(1_000_000, 8_000, 0, 1_000, 2).unwrap();
    let locked = vec![400_000u64, 100_000u64];
    let out = distribute_fees(&policy, &mut progress, DAY, 2, 0, 100_000, &locked, 100_000)
        .unwrap();

    assert_eq!(out.payouts, vec![40_000, 10_000]);
    assert_eq!(out.page.page_start, 0);
    assert_eq!(out.page.page_end, 2);
    assert_eq!(out.page.investors_paid, 2);
    assert_eq!(out.page.total_amount, 50_000);
    assert_eq!(
        out.fees_claimed,
        Some(QuoteFeesClaimed { amount: 100_000, timestamp: DAY })
    );
    // The page closes the day: the creator gets the rest of the claim.
    assert_eq!(
        out.day_closed,
        Some(CreatorPayoutDayClosed { amount: 50_000, day_timestamp: DAY })
    );

    assert_eq!(progress.last_distribution_ts, DAY);
    assert_eq!(progress.current_day_claimed, 100_000);
    assert_eq!(progress.current_day_distributed_investors, 50_000);
    assert_eq!(progress.current_day_distributed_creator, 50_000);
    assert_eq!(progress.carry_over_dust, 0);
    assert_eq!(progress.pagination_cursor, 2);
    assert!(progress.day_completed);
}

#[test]
fn scenario_b_nothing_locked_pays_nothing() {
    let (policy, mut progress) = initialize(1_000_000, 8_000, 0, 1_000, 2).unwrap();
    let locked = vec![0u64, 0u64];
    let out = distribute_fees(&policy, &mut progress, DAY, 2, 0, 100_000, &locked, 100_000)
        .unwrap();

    assert_eq!(out.payouts, vec![0, 0]);
    assert_eq!(out.page.investors_paid, 0);
    assert_eq!(out.page.total_amount, 0);
    assert_eq!(progress.current_day_distributed_investors, 0);
    // Dust is unchanged (a fresh day starts with none).
    assert_eq!(progress.carry_over_dust, 0);
    // The whole claim goes to the creator when the day closes.
    assert_eq!(progress.current_day_distributed_creator, 100_000);
    assert!(progress.day_completed);
}

#[test]
fn scenario_c_daily_cap_scales_payouts() {
    // Same as scenario A with a 30_000 cap: distributable =
    // min(50_000, 30_000), payouts scale to 24_000/6_000.
    let (policy, mut progress) = initialize(1_000_000, 8_000, 30_000, 1_000, 2).unwrap();
    let locked = vec![400_000u64, 100_000u64];
    let out = distribute_fees(&policy, &mut progress, DAY, 2, 0, 100_000, &locked, 100_000)
        .unwrap();

    assert_eq!(out.payouts, vec![24_000, 6_000]);
    assert_eq!(out.page.total_amount, 30_000);
    assert_eq!(progress.current_day_distributed_investors, 30_000);
    assert!(progress.current_day_distributed_investors <= policy.daily_cap_lamports);
    assert_eq!(progress.current_day_distributed_creator, 70_000);
    assert!(progress.day_completed);
}

#[test]
fn scenario_d_two_pages_close_the_day_once() {
    // 50 investors, pages of 25: the first page leaves the day open,
    // the second closes it and pays the creator exactly once.
    let (policy, mut progress) = initialize(1_000_000, 8_000, 0, 1_000, 50).unwrap();
    let page: Vec<u64> = vec![10_000; 25];

    let out1 = distribute_fees(&policy, &mut progress, DAY, 25, 0, 100_000, &page, 100_000)
        .unwrap();
    // 25 * 10_000 locked of Y0 = 1_000_000: eligible 2500 bps, quote
    // 25_000, weight 400 bps each, payout 1_000 each.
    assert_eq!(out1.payouts, vec![1_000; 25]);
    assert_eq!(out1.page.page_start, 0);
    assert_eq!(out1.page.page_end, 25);
    assert!(out1.day_closed.is_none());
    assert!(!progress.day_completed);
    assert_eq!(progress.pagination_cursor, 25);
    assert_eq!(progress.current_day_distributed_investors, 25_000);
    assert_eq!(progress.current_day_distributed_creator, 0);

    // Same day, next page: must succeed and close the day.
    let out2 = distribute_fees(&policy, &mut progress, DAY, 25, 25, 0, &page, 100_000)
        .unwrap();
    assert!(out2.fees_claimed.is_none());
    assert_eq!(out2.page.page_start, 25);
    assert_eq!(out2.page.page_end, 50);
    assert_eq!(
        out2.day_closed,
        Some(CreatorPayoutDayClosed { amount: 50_000, day_timestamp: DAY })
    );
    assert!(progress.day_completed);
    assert_eq!(progress.pagination_cursor, 50);
    assert_eq!(progress.current_day_distributed_investors, 50_000);
    assert_eq!(progress.current_day_distributed_creator, 50_000);
}

#[test]
fn scenario_e_stale_cursor_is_rejected() {
    // A stale retry of page 1 after its commit moved the cursor to 25
    // must fail rather than pay the same investors again.
    let (policy, mut progress) = initialize(1_000_000, 8_000, 0, 1_000, 50).unwrap();
    let page: Vec<u64> = vec![10_000; 25];
    distribute_fees(&policy, &mut progress, DAY, 25, 0, 100_000, &page, 100_000).unwrap();
    let before = progress;

    let err = distribute_fees(&policy, &mut progress, DAY, 25, 0, 100_000, &page, 100_000)
        .unwrap_err();
    assert_eq!(err, FeeDistributorError::InvalidPaginationCursor);
    assert_eq!(progress, before);
}

#[test]
fn dust_floor_skips_small_payouts() {
    // With a dust floor above both payouts nothing is paid; the whole
    // distributable amount stays behind as dust and the claim goes to
    // the creator at day close.
    let (policy, mut progress) = initialize(1_000_000, 8_000, 0, 50_000, 2).unwrap();
    let locked = vec![400_000u64, 100_000u64];
    let out = distribute_fees(&policy, &mut progress, DAY, 2, 0, 100_000, &locked, 200_000)
        .unwrap();

    assert_eq!(out.payouts, vec![0, 0]);
    assert_eq!(out.page.investors_paid, 0);
    assert_eq!(out.page.total_amount, 0);
    assert_eq!(progress.carry_over_dust, 50_000);
    assert_eq!(progress.current_day_distributed_investors, 0);
    assert_eq!(progress.current_day_distributed_creator, 100_000);
}

#[test]
fn daily_cap_holds_across_pages() {
    // The first page of the day consumes the whole cap; the second page
    // finds no room left under it and pays nothing.
    let (policy, mut progress) = initialize(1_000_000, 8_000, 30_000, 1_000, 4).unwrap();
    let page = vec![250_000u64, 250_000u64];

    let out1 = distribute_fees(&policy, &mut progress, DAY, 2, 0, 100_000, &page, 200_000)
        .unwrap();
    // Half the allocation locked: eligible 5000 bps, quote 50_000,
    // distributable capped at 30_000, split evenly.
    assert_eq!(out1.payouts, vec![15_000, 15_000]);
    assert_eq!(progress.current_day_distributed_investors, 30_000);

    let out2 = distribute_fees(&policy, &mut progress, DAY, 2, 2, 0, &page, 200_000)
        .unwrap();
    assert_eq!(out2.payouts, vec![0, 0]);
    assert_eq!(progress.current_day_distributed_investors, 30_000);
    assert!(progress.current_day_distributed_investors <= policy.daily_cap_lamports);
    assert!(progress.day_completed);
    // The creator receives the rest of the claim when the day closes.
    assert_eq!(progress.current_day_distributed_creator, 70_000);
}

#[test]
fn day_claim_bounds_distribution_across_pages() {
    // An over-reporting lock oracle (each page's locked sum reaches the
    // whole baseline allocation) must not draw more than the day's
    // claim: the first page distributes the full claim, the second
    // finds nothing left of it.
    let (policy, mut progress) = initialize(1, 10_000, 0, 0, 2).unwrap();

    let out1 = distribute_fees(&policy, &mut progress, DAY, 1, 0, 100, &vec![1u64], 100).unwrap();
    assert_eq!(out1.payouts, vec![100]);
    assert_eq!(progress.current_day_distributed_investors, 100);

    let out2 = distribute_fees(&policy, &mut progress, DAY, 1, 1, 0, &vec![1u64], 100).unwrap();
    assert_eq!(out2.payouts, vec![0]);
    assert_eq!(progress.current_day_distributed_investors, 100);
    assert!(progress.current_day_distributed_investors <= progress.current_day_claimed);
    assert!(progress.day_completed);
    // The claim was fully distributed: nothing remains for the creator.
    assert_eq!(progress.current_day_distributed_creator, 0);
}

#[test]
fn conservation_of_funds_per_page() {
    // total_distributed + remaining_dust == distributable + dust_in:
    // weights 3333/3333/3333 bps of 100_000 leave rounding dust behind.
    let (policy, mut progress) = initialize(300_000, 10_000, 0, 1, 3).unwrap();
    let locked = vec![100_000u64, 100_000u64, 100_000u64];
    let out = distribute_fees(&policy, &mut progress, DAY, 3, 0, 100_000, &locked, 200_000)
        .unwrap();

    // f_locked = 10000, quote = 100_000, weight 3333 bps, payout 33_330.
    assert_eq!(out.payouts, vec![33_330, 33_330, 33_330]);
    assert_eq!(out.page.total_amount, 99_990);
    assert_eq!(progress.carry_over_dust, 10);
    assert_eq!(out.page.total_amount + progress.carry_over_dust, 100_000);
}
