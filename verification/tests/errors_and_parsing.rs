use investor_fee_distributor::errors::FeeDistributorError;
use investor_fee_distributor::instructions::distribute::calculate_locked_fraction;
use investor_fee_distributor::instructions::distribute::distribute_remainder_to_creator;
use investor_fee_distributor::instructions::distribute::distribute_to_investors;
use investor_fee_distributor::instructions::distribute::read_streamflow_locked_amount;
use investor_fee_distributor::distribute_fees;
use investor_fee_distributor::initialize;

const DAY: i64 = 86_400;

#[test]
fn initialize_rejects_share_above_100_percent() {
    let err = initialize(1_000_000, 10_001, 0, 1_000, 2).unwrap_err();
    assert_eq!(err, FeeDistributorError::InvalidBasisPoints);
    assert!(initialize(1_000_000, 10_000, 0, 1_000, 2).is_ok());
}

#[test]
fn page_size_zero_or_oversized_is_rejected() {
    let (policy, mut progress) = initialize(1_000_000, 8_000, 0, 1_000, 2).unwrap();
    let before = progress;
    let none: Vec<u64> = Vec::new();

    let err = distribute_fees(&policy, &mut progress, DAY, 0, 0, 100_000, &none, 0).unwrap_err();
    assert_eq!(err, FeeDistributorError::InvalidPageSize);
    let err = distribute_fees(&policy, &mut progress, DAY, 51, 0, 100_000, &none, 0).unwrap_err();
    assert_eq!(err, FeeDistributorError::InvalidPageSize);
    assert_eq!(progress, before);
}

#[test]
fn new_day_mid_page_is_rejected() {
    let (policy, mut progress) = initialize(1_000_000, 8_000, 0, 1_000, 50).unwrap();
    let page: Vec<u64> = vec![10_000; 25];
    distribute_fees(&policy, &mut progress, DAY, 25, 0, 100_000, &page, 100_000).unwrap();
    let before = progress;

    // A day later the cursor still stands at 25: the new day may not open.
    let err = distribute_fees(&policy, &mut progress, 3 * DAY, 25, 0, 100_000, &page, 100_000)
        .unwrap_err();
    assert_eq!(err, FeeDistributorError::NotFirstPage);
    assert_eq!(progress, before);
}

#[test]
fn completed_day_rejects_calls_until_the_gate() {
    let (policy, mut progress) = initialize(1_000_000, 8_000, 0, 1_000, 2).unwrap();
    let locked = vec![400_000u64, 100_000u64];
    distribute_fees(&policy, &mut progress, DAY, 2, 0, 100_000, &locked, 100_000).unwrap();
    let before = progress;

    let err = distribute_fees(&policy, &mut progress, DAY + 1, 2, 0, 100_000, &locked, 100_000)
        .unwrap_err();
    assert_eq!(err, FeeDistributorError::DayAlreadyCompleted);
    assert_eq!(progress, before);

    // Once the 24-hour gate elapses the next day opens normally.
    let out = distribute_fees(&policy, &mut progress, 2 * DAY, 2, 0, 70_000, &locked, 70_000)
        .unwrap();
    assert_eq!(out.page.total_amount, 35_000);
    assert_eq!(progress.current_day_claimed, 70_000);
}

#[test]
fn clock_before_day_start_is_rejected() {
    let (policy, mut progress) = initialize(1_000_000, 8_000, 0, 1_000, 50).unwrap();
    let page: Vec<u64> = vec![10_000; 25];
    distribute_fees(&policy, &mut progress, DAY, 25, 0, 100_000, &page, 100_000).unwrap();
    let before = progress;

    let err = distribute_fees(&policy, &mut progress, DAY - 400, 25, 25, 0, &page, 100_000)
        .unwrap_err();
    assert_eq!(err, FeeDistributorError::TooSoonToDistribute);
    assert_eq!(progress, before);
}

#[test]
fn empty_investor_set_has_no_valid_cursor() {
    let (policy, mut progress) = initialize(1_000_000, 8_000, 0, 1_000, 0).unwrap();
    let none: Vec<u64> = Vec::new();
    let err = distribute_fees(&policy, &mut progress, DAY, 10, 0, 100_000, &none, 0).unwrap_err();
    assert_eq!(err, FeeDistributorError::InvalidPaginationCursor);
}

#[test]
fn locked_amounts_overflowing_a_u64_abort_the_call() {
    let (policy, mut progress) = initialize(1_000_000, 8_000, 0, 1_000, 2).unwrap();
    let before = progress;
    let locked = vec![u64::MAX, 1u64];
    let err = distribute_fees(&policy, &mut progress, DAY, 2, 0, 100_000, &locked, 0).unwrap_err();
    assert_eq!(err, FeeDistributorError::ArithmeticOverflow);
    assert_eq!(progress, before);
}

#[test]
fn locked_fraction_is_floored_and_saturates() {
    assert_eq!(calculate_locked_fraction(500_000, 1_000_000), 5_000);
    assert_eq!(calculate_locked_fraction(333, 1_000), 3_330);
    assert_eq!(calculate_locked_fraction(2_000_000, 1_000_000), 10_000);
    assert_eq!(calculate_locked_fraction(1, 1_000_000), 0);
    assert_eq!(calculate_locked_fraction(123, 0), 0);
    assert_eq!(calculate_locked_fraction(u64::MAX, 1), 10_000);
}

#[test]
fn creator_remainder_is_limited_by_the_treasury() {
    assert_eq!(distribute_remainder_to_creator(100, 30, 1_000), 70);
    assert_eq!(distribute_remainder_to_creator(100, 30, 50), 50);
    assert_eq!(distribute_remainder_to_creator(30, 100, 1_000), 0);
    assert_eq!(distribute_remainder_to_creator(100, 0, 0), 0);
}

#[test]
fn payout_calculator_conserves_funds_with_carried_dust() {
    // Mid-day state with dust carried in: the pool is distributable +
    // dust, and whatever is not paid out remains as dust.
    let (policy, _) = initialize(1_000_000, 10_000, 0, 1, 2).unwrap();
    let locked = vec![300_000u64, 200_000u64];
    // claimed 10_001, already distributed 0, dust 7 carried in.
    let res = distribute_to_investors(&locked, &policy, 10_001, 0, 7).unwrap();
    // f_locked 5000, quote 5_000, weights 6000/4000, payouts 3_000/2_000.
    assert_eq!(res.payouts, vec![3_000, 2_000]);
    assert_eq!(res.total_distributed, 5_000);
    assert_eq!(res.remaining_dust, 7);
    assert_eq!(res.investors_paid, 2);
    assert_eq!(res.total_distributed + res.remaining_dust, 5_000 + 7);
}

#[test]
fn stream_account_bytes_parse_little_endian() {
    let mut data = [0u8; 24];
    data[8..16].copy_from_slice(&400_000u64.to_le_bytes());
    assert_eq!(read_streamflow_locked_amount(&data, DAY).unwrap(), 400_000);

    let mut max = [0u8; 16];
    max[8..16].copy_from_slice(&u64::MAX.to_le_bytes());
    assert_eq!(read_streamflow_locked_amount(&max, DAY).unwrap(), u64::MAX);

    // Byte order matters: 0x01 at offset 9 is 256, not 1.
    let mut one = [0u8; 16];
    one[9] = 1;
    assert_eq!(read_streamflow_locked_amount(&one, DAY).unwrap(), 256);
}

#[test]
fn short_stream_account_is_rejected() {
    let short = [0u8; 15];
    let err = read_streamflow_locked_amount(&short, DAY).unwrap_err();
    assert_eq!(err, FeeDistributorError::InvalidStreamAccount);
    assert!(read_streamflow_locked_amount(&[0u8; 16], DAY).is_ok());
}
