use vstd::prelude::*;

verus! {

/// Every way a distribution call can be rejected.
///
/// A failure never leaves a partial effect behind: the caller sees the
/// error and the progress record is exactly as it was before the call.
#[derive(Clone, Copy, Debug, PartialEq, Eq, Structural)]
pub enum FeeDistributorError {
    /// Base token fees detected - only quote token fees allowed.
    BaseFeesNotAllowed,
    /// Invalid pool configuration - cannot guarantee quote-only fees.
    InvalidPoolConfiguration,
    /// Quote mint validation failed.
    InvalidQuoteMint,
    /// Cannot distribute - must wait 24 hours since last distribution.
    TooSoonToDistribute,
    /// Distribution for this day already completed.
    DayAlreadyCompleted,
    /// Pagination cursor out of bounds or not matching stored progress.
    InvalidPaginationCursor,
    /// Arithmetic overflow in fee calculation.
    ArithmeticOverflow,
    /// Total locked amount is zero - no investors to distribute to.
    NoLockedTokens,
    /// Invalid investor page size - zero or exceeds maximum.
    InvalidPageSize,
    /// Daily cap exceeded.
    DailyCapExceeded,
    /// Stream account data invalid or too short to hold a lock record.
    InvalidStreamAccount,
    /// Investor token account does not match expected quote mint.
    InvalidInvestorATA,
    /// Not the first page of the day - cannot claim fees.
    NotFirstPage,
    /// Must complete previous page before starting new one.
    PaginationNotSequential,
    /// Invalid basis points value - must be at most 10000.
    InvalidBasisPoints,
}

} // verus!
