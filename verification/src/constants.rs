use vstd::prelude::*;

verus! {

/// Length of one distribution epoch in seconds.
pub const SECONDS_PER_DAY: i64 = 86_400;

/// Basis points denominator: 10_000 bps = 100%.
pub const BASIS_POINTS_DIVISOR: u64 = 10_000;

/// Default minimum payout threshold in quote-token lamports.
pub const DEFAULT_MIN_PAYOUT_LAMPORTS: u64 = 1_000_000;

/// Maximum number of investors a single page may cover.
pub const MAX_PAGE_SIZE: u8 = 50;

} // verus!
