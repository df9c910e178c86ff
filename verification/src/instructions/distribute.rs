use vstd::prelude::*;

use crate::constants::BASIS_POINTS_DIVISOR;
use crate::constants::MAX_PAGE_SIZE;
use crate::constants::SECONDS_PER_DAY;
use crate::errors::FeeDistributorError;
use crate::state::DistributionPolicy;
use crate::state::DistributionProgress;
use vstd::arithmetic::div_mod::lemma_div_by_multiple;
use vstd::arithmetic::div_mod::lemma_div_is_ordered;
use vstd::arithmetic::div_mod::lemma_div_of0;
use vstd::arithmetic::div_mod::lemma_div_multiples_vanish;
use vstd::arithmetic::div_mod::lemma_div_pos_is_pos;
use vstd::arithmetic::div_mod::lemma_fundamental_div_mod;
use vstd::arithmetic::div_mod::lemma_mod_bound;
use vstd::arithmetic::mul::lemma_mul_inequality;
use vstd::arithmetic::mul::lemma_mul_is_distributive_add;

verus! {

/// Sum of a page of locked amounts, as a mathematical integer.
pub open spec fn sum(s: Seq<u64>) -> int
    decreases s.len(),
{
    if s.len() == 0 {
        0
    } else {
        s[0] + sum(s.drop_first())
    }
}

/// An investor's pro-rata weight in basis points:
/// `locked * 10000 / total_locked`, rounded down.
pub open spec fn weight_bps(locked: int, total_locked: int) -> int
    recommends
        total_locked > 0,
{
    locked * BASIS_POINTS_DIVISOR / total_locked
}

/// The payout a weight earns out of the distributable pool:
/// `distributable * weight / 10000`, rounded down.
pub open spec fn payout_amount(distributable: int, weight: int) -> int {
    distributable * weight / (BASIS_POINTS_DIVISOR as int)
}

/// Investor share of the day's claim for an eligible share in basis
/// points: `claimed * share / 10000`, rounded down.
pub open spec fn investor_fee_quote(claimed: u64, share_bps: int) -> int {
    claimed * share_bps / (BASIS_POINTS_DIVISOR as int)
}

/// What may still be distributed to investors this page: the investor
/// fee quote, limited by what is left of the day's claim after earlier
/// pages, and by what is left under the daily cap (a cap of 0 means
/// uncapped). The claim bound keeps a day's investor payouts within the
/// day's claim even when the lock oracle reports more locked than the
/// baseline allocation.
pub open spec fn distributable_amount(
    policy: DistributionPolicy,
    claimed: u64,
    distributed: u64,
    total_locked: int,
) -> int {
    let quote = investor_fee_quote(claimed, eligible_share_bps(policy, total_locked));
    let claim_left = if claimed >= distributed {
        claimed - distributed
    } else {
        0
    };
    let quote_in_claim = if quote <= claim_left {
        quote
    } else {
        claim_left
    };
    if policy.daily_cap_lamports == 0 {
        quote_in_claim
    } else {
        let cap_left = if policy.daily_cap_lamports >= distributed {
            policy.daily_cap_lamports - distributed
        } else {
            0
        };
        if quote_in_claim <= cap_left {
            quote_in_claim
        } else {
            cap_left
        }
    }
}

/// What one page of the payout calculator produces: the payout written
/// against each page slot (0 where the investor is skipped), how many
/// investors are paid, the total paid, and the dust left over.
pub struct PageOutcome {
    /// Payout per page slot, 0 where nothing is paid.
    pub payouts: Seq<int>,
    /// Number of investors actually paid.
    pub paid: int,
    /// Total amount paid out over the page.
    pub total: int,
    /// What is left of the available pool after the page.
    pub remaining: int,
}

/// The page walk of the payout calculator, investor by investor in page
/// order: a zero-locked investor is skipped; a payout under the dust
/// floor is skipped; a payout above the available pool stops the page;
/// otherwise the payout is taken out of the pool.
pub open spec fn page_outcome(
    locked: Seq<u64>,
    total_locked: int,
    distributable: int,
    min_payout: u64,
    available: int,
) -> PageOutcome
    decreases locked.len(),
{
    if locked.len() == 0 {
        PageOutcome { payouts: Seq::empty(), paid: 0, total: 0, remaining: available }
    } else if locked[0] == 0 {
        let rest = page_outcome(locked.drop_first(), total_locked, distributable, min_payout, available);
        PageOutcome {
            payouts: seq![0int] + rest.payouts,
            paid: rest.paid,
            total: rest.total,
            remaining: rest.remaining,
        }
    } else {
        let p = payout_amount(distributable, weight_bps(locked[0] as int, total_locked));
        if p < min_payout {
            let rest = page_outcome(locked.drop_first(), total_locked, distributable, min_payout, available);
            PageOutcome {
                payouts: seq![0int] + rest.payouts,
                paid: rest.paid,
                total: rest.total,
                remaining: rest.remaining,
            }
        } else if p > available {
            PageOutcome {
                payouts: Seq::new(locked.len(), |i: int| 0int),
                paid: 0,
                total: 0,
                remaining: available,
            }
        } else {
            let rest = page_outcome(
                locked.drop_first(),
                total_locked,
                distributable,
                min_payout,
                available - p,
            );
            PageOutcome {
                payouts: seq![p] + rest.payouts,
                paid: rest.paid + 1,
                total: rest.total + p,
                remaining: rest.remaining,
            }
        }
    }
}

/// The whole payout calculator as a function of a page and the day's
/// state: with nothing locked the page pays nothing and the dust is
/// unchanged; otherwise the page walk runs over the distributable
/// amount padded by the dust carried in.
pub open spec fn page_distribution(
    locked: Seq<u64>,
    policy: DistributionPolicy,
    claimed: u64,
    distributed: u64,
    dust: u64,
) -> PageOutcome {
    let tl = sum(locked);
    if tl == 0 {
        PageOutcome {
            payouts: Seq::new(locked.len(), |i: int| 0int),
            paid: 0,
            total: 0,
            remaining: dust as int,
        }
    } else {
        let d = distributable_amount(policy, claimed, distributed, tl);
        page_outcome(locked, tl, d, policy.min_payout_lamports, d + dust)
    }
}

/// When the payout calculator must abort with an arithmetic overflow:
/// the page's locked amounts do not sum in a u64, or the available pool
/// (distributable plus carried dust) does not fit one.
pub open spec fn page_overflows(
    locked: Seq<u64>,
    policy: DistributionPolicy,
    claimed: u64,
    distributed: u64,
    dust: u64,
) -> bool {
    ||| sum(locked) > u64::MAX
    ||| (sum(locked) > 0 && distributable_amount(policy, claimed, distributed, sum(locked)) + dust
        > u64::MAX)
}

/// A page sums to something non-negative.
pub proof fn lemma_sum_nonneg(s: Seq<u64>)
    ensures
        sum(s) >= 0,
    decreases s.len(),
{
    if s.len() > 0 {
        lemma_sum_nonneg(s.drop_first());
    }
}

/// No element of a page exceeds the page's sum.
pub proof fn lemma_elem_le_sum(s: Seq<u64>, i: int)
    requires
        0 <= i < s.len(),
    ensures
        s[i] <= sum(s),
    decreases s.len(),
{
    if i == 0 {
        lemma_sum_nonneg(s.drop_first());
    } else {
        lemma_elem_le_sum(s.drop_first(), i - 1);
    }
}

/// Division by a positive constant keeps sums in order:
/// `a / c + b / c <= (a + b) / c` for non-negative `a`, `b`.
proof fn lemma_div_sum_le(a: int, b: int, c: int)
    requires
        a >= 0,
        b >= 0,
        c > 0,
    ensures
        a / c + b / c <= (a + b) / c,
{
    lemma_fundamental_div_mod(a, c);
    lemma_fundamental_div_mod(b, c);
    lemma_mod_bound(a, c);
    lemma_mod_bound(b, c);
    let q = a / c + b / c;
    assert(c * q == c * (a / c) + c * (b / c)) by {
        lemma_mul_is_distributive_add(c, a / c, b / c);
    }
    assert(c * q <= a + b);
    lemma_div_is_ordered(c * q, a + b, c);
    lemma_div_multiples_vanish(q, c);
}

/// Dust non-negativity and conservation over a page walk: the page pays
/// out exactly what it removes from the available pool, never more than
/// the pool holds, and writes one non-negative payout per slot.
pub proof fn lemma_page_outcome_conservation(
    locked: Seq<u64>,
    total_locked: int,
    distributable: int,
    min_payout: u64,
    available: int,
)
    requires
        available >= 0,
        distributable >= 0,
        total_locked > 0,
    ensures
        ({
            let o = page_outcome(locked, total_locked, distributable, min_payout, available);
            &&& o.payouts.len() == locked.len()
            &&& o.total + o.remaining == available
            &&& o.total >= 0
            &&& o.remaining >= 0
            &&& 0 <= o.paid <= locked.len()
            &&& forall|i: int| 0 <= i < locked.len() ==> 0 <= #[trigger] o.payouts[i] <= available
        }),
    decreases locked.len(),
{
    if locked.len() == 0 {
    } else if locked[0] == 0 {
        lemma_page_outcome_conservation(
            locked.drop_first(),
            total_locked,
            distributable,
            min_payout,
            available,
        );
    } else {
        let w = weight_bps(locked[0] as int, total_locked);
        let p = payout_amount(distributable, w);
        assert(w >= 0) by {
            lemma_mul_inequality(0, locked[0] as int, BASIS_POINTS_DIVISOR as int);
            lemma_div_pos_is_pos(locked[0] * BASIS_POINTS_DIVISOR, total_locked);
        }
        assert(p >= 0) by {
            lemma_mul_inequality(0, distributable, w);
            lemma_div_pos_is_pos(distributable * w, BASIS_POINTS_DIVISOR as int);
        }
        if p < min_payout || p <= available {
            let avail_next = if p < min_payout {
                available
            } else {
                available - p
            };
            lemma_page_outcome_conservation(
                locked.drop_first(),
                total_locked,
                distributable,
                min_payout,
                avail_next,
            );
        }
    }
}

/// Sum of the pro-rata weights of a page, in basis points.
pub open spec fn sum_weights(locked: Seq<u64>, total_locked: int) -> int
    decreases locked.len(),
{
    if locked.len() == 0 {
        0
    } else {
        weight_bps(locked[0] as int, total_locked) + sum_weights(locked.drop_first(), total_locked)
    }
}

proof fn lemma_weight_nonneg(locked: u64, total_locked: int)
    requires
        total_locked > 0,
    ensures
        weight_bps(locked as int, total_locked) >= 0,
{
    assert(locked * BASIS_POINTS_DIVISOR >= 0) by (nonlinear_arith);
    lemma_div_pos_is_pos(locked * BASIS_POINTS_DIVISOR, total_locked);
}

proof fn lemma_sum_weights_nonneg(locked: Seq<u64>, total_locked: int)
    requires
        total_locked > 0,
    ensures
        sum_weights(locked, total_locked) >= 0,
    decreases locked.len(),
{
    if locked.len() > 0 {
        lemma_weight_nonneg(locked[0], total_locked);
        lemma_sum_weights_nonneg(locked.drop_first(), total_locked);
    }
}

/// Floored pro-rata weights never sum past the page's own share: over
/// any page, `sum_weights <= sum(locked) * 10000 / total_locked`.
proof fn lemma_sum_weights_le(locked: Seq<u64>, total_locked: int)
    requires
        total_locked > 0,
    ensures
        sum_weights(locked, total_locked) <= sum(locked) * BASIS_POINTS_DIVISOR / total_locked,
    decreases locked.len(),
{
    if locked.len() == 0 {
    } else {
        let rest = locked.drop_first();
        let l0 = locked[0] as int;
        lemma_sum_weights_le(rest, total_locked);
        lemma_sum_nonneg(rest);
        assert(l0 * BASIS_POINTS_DIVISOR >= 0) by (nonlinear_arith)
            requires l0 >= 0;
        assert(sum(rest) * BASIS_POINTS_DIVISOR >= 0) by (nonlinear_arith)
            requires sum(rest) >= 0;
        lemma_div_sum_le(l0 * BASIS_POINTS_DIVISOR, sum(rest) * BASIS_POINTS_DIVISOR, total_locked);
        assert(l0 * BASIS_POINTS_DIVISOR + sum(rest) * BASIS_POINTS_DIVISOR
            == sum(locked) * BASIS_POINTS_DIVISOR);
    }
}

/// Page totals stay under the distributable pool scaled by the weight
/// sum: `total <= distributable * sum_weights / 10000`.
proof fn lemma_page_outcome_total_bound(
    locked: Seq<u64>,
    total_locked: int,
    distributable: int,
    min_payout: u64,
    available: int,
)
    requires
        total_locked > 0,
        distributable >= 0,
        available >= 0,
    ensures
        page_outcome(locked, total_locked, distributable, min_payout, available).total
            <= payout_amount(distributable, sum_weights(locked, total_locked)),
    decreases locked.len(),
{
    let o = page_outcome(locked, total_locked, distributable, min_payout, available);
    let sw = sum_weights(locked, total_locked);
    lemma_sum_weights_nonneg(locked, total_locked);
    assert(distributable * sw >= 0) by (nonlinear_arith)
        requires distributable >= 0, sw >= 0;
    lemma_div_pos_is_pos(distributable * sw, BASIS_POINTS_DIVISOR as int);
    if locked.len() == 0 {
    } else {
        let rest = locked.drop_first();
        let w0 = weight_bps(locked[0] as int, total_locked);
        let sw_rest = sum_weights(rest, total_locked);
        let p = payout_amount(distributable, w0);
        lemma_weight_nonneg(locked[0], total_locked);
        lemma_sum_weights_nonneg(rest, total_locked);
        assert(distributable * sw_rest <= distributable * sw) by (nonlinear_arith)
            requires sw_rest <= sw, distributable >= 0;
        lemma_div_is_ordered(distributable * sw_rest, distributable * sw, BASIS_POINTS_DIVISOR as int);
        if locked[0] == 0 || p < min_payout {
            lemma_page_outcome_total_bound(rest, total_locked, distributable, min_payout, available);
        } else if p > available {
        } else {
            lemma_page_outcome_total_bound(
                rest,
                total_locked,
                distributable,
                min_payout,
                available - p,
            );
            assert(distributable * w0 >= 0) by (nonlinear_arith)
                requires distributable >= 0, w0 >= 0;
            assert(distributable * sw_rest >= 0) by (nonlinear_arith)
                requires distributable >= 0, sw_rest >= 0;
            lemma_div_sum_le(
                distributable * w0,
                distributable * sw_rest,
                BASIS_POINTS_DIVISOR as int,
            );
            lemma_mul_is_distributive_add(distributable, w0, sw_rest);
        }
    }
}

/// The heart of cap enforcement: when the whole page's locked amounts
/// sum to `total_locked`, the page never pays out more than the
/// distributable pool, no matter how much dust pads the available pool.
pub proof fn lemma_page_total_le_distributable(
    locked: Seq<u64>,
    distributable: int,
    min_payout: u64,
    available: int,
)
    requires
        sum(locked) > 0,
        distributable >= 0,
        available >= 0,
    ensures
        page_outcome(locked, sum(locked), distributable, min_payout, available).total
            <= distributable,
{
    let tl = sum(locked);
    let sw = sum_weights(locked, tl);
    lemma_page_outcome_total_bound(locked, tl, distributable, min_payout, available);
    lemma_sum_weights_le(locked, tl);
    assert(tl * BASIS_POINTS_DIVISOR == BASIS_POINTS_DIVISOR * tl) by (nonlinear_arith);
    lemma_div_multiples_vanish(BASIS_POINTS_DIVISOR as int, tl);
    assert(sw <= BASIS_POINTS_DIVISOR);
    lemma_sum_weights_nonneg(locked, tl);
    assert(distributable * sw <= distributable * BASIS_POINTS_DIVISOR) by (nonlinear_arith)
        requires sw <= BASIS_POINTS_DIVISOR, distributable >= 0;
    lemma_div_is_ordered(
        distributable * sw,
        distributable * (BASIS_POINTS_DIVISOR as int),
        BASIS_POINTS_DIVISOR as int,
    );
    assert(distributable * (BASIS_POINTS_DIVISOR as int)
        == (BASIS_POINTS_DIVISOR as int) * distributable) by (nonlinear_arith);
    lemma_div_multiples_vanish(distributable, BASIS_POINTS_DIVISOR as int);
}

/// A page of executable payouts seen as mathematical integers.
pub open spec fn payouts_view(s: Seq<u64>) -> Seq<int> {
    s.map_values(|x: u64| x as int)
}

/// The distributable amount of a page with nothing locked is 0: the
/// locked fraction, and with it the investor quote, vanishes.
pub proof fn lemma_distributable_zero_locked(
    policy: DistributionPolicy,
    claimed: u64,
    distributed: u64,
)
    ensures
        distributable_amount(policy, claimed, distributed, 0) == 0,
{
    let y0 = policy.total_investor_allocation as int;
    if y0 > 0 {
        lemma_div_of0(y0);
    }
    assert(locked_fraction_bps(0, y0) == 0);
    assert(eligible_share_bps(policy, 0) == 0);
    assert(claimed * 0 == 0);
    lemma_div_of0(BASIS_POINTS_DIVISOR as int);
}

/// What the payout calculator hands back for one page.
#[derive(Debug)]
pub struct DistributionResult {
    /// Payout per page slot, in page order; 0 where the investor was
    /// skipped or the page stopped.
    pub payouts: Vec<u64>,
    /// Total quote lamports paid to investors of this page.
    pub total_distributed: u64,
    /// Dust left in the pool after the page.
    pub remaining_dust: u64,
    /// Number of investors paid.
    pub investors_paid: usize,
}

/// The payout calculator: pure arithmetic from a page of locked amounts
/// and the day's state to a payout schedule.
///
/// Fails only with `ArithmeticOverflow`, exactly when the page's locked
/// amounts or the available pool do not fit a u64. On success the result
/// is the page walk of `page_distribution`; in particular funds are
/// conserved (`total_distributed + remaining_dust` equals the
/// distributable amount plus the dust carried in) and the total paid
/// never exceeds the distributable amount.
#[verifier::loop_isolation(false)]
pub fn distribute_to_investors(
    locked_amounts: &Vec<u64>,
    policy: &DistributionPolicy,
    current_day_claimed: u64,
    current_day_distributed_investors: u64,
    carry_over_dust: u64,
) -> (r: Result<DistributionResult, FeeDistributorError>)
    requires
        policy.wf(),
    ensures
        r is Err <==> page_overflows(
            locked_amounts@,
            *policy,
            current_day_claimed,
            current_day_distributed_investors,
            carry_over_dust,
        ),
        r is Err ==> r->Err_0 == FeeDistributorError::ArithmeticOverflow,
        r is Ok ==> ({
            let o = page_distribution(
                locked_amounts@,
                *policy,
                current_day_claimed,
                current_day_distributed_investors,
                carry_over_dust,
            );
            let res = r->Ok_0;
            &&& res.payouts@.len() == locked_amounts@.len()
            &&& payouts_view(res.payouts@) == o.payouts
            &&& res.total_distributed == o.total
            &&& res.remaining_dust == o.remaining
            &&& res.investors_paid == o.paid
            &&& res.investors_paid <= locked_amounts@.len()
        }),
        // Conservation: the page neither creates nor destroys funds.
        r is Ok ==> r->Ok_0.total_distributed + r->Ok_0.remaining_dust
            == distributable_amount(
                *policy,
                current_day_claimed,
                current_day_distributed_investors,
                sum(locked_amounts@),
            ) + carry_over_dust,
        // Cap support: the page never pays more than the distributable amount.
        r is Ok ==> r->Ok_0.total_distributed <= distributable_amount(
            *policy,
            current_day_claimed,
            current_day_distributed_investors,
            sum(locked_amounts@),
        ),
{
    let ghost s = locked_amounts@;
    let n = locked_amounts.len();

    // Sum the page's locked amounts, aborting on overflow.
    proof {
        assert(s.skip(0) =~= s);
    }
    let mut total_locked: u64 = 0;
    let mut i: usize = 0;
    while i < n
        invariant
            0 <= i <= n,
            total_locked + sum(s.skip(i as int)) == sum(s),
        decreases n - i,
    {
        proof {
            assert(s.skip(i as int).drop_first() =~= s.skip(i as int + 1));
            lemma_sum_nonneg(s.skip(i as int + 1));
        }
        let l = locked_amounts[i];
        if l > u64::MAX - total_locked {
            return Err(FeeDistributorError::ArithmeticOverflow);
        }
        total_locked = total_locked + l;
        i = i + 1;
    }
    proof {
        assert(s.skip(n as int) =~= Seq::<u64>::empty());
        assert(total_locked == sum(s));
    }

    // A page with nothing locked pays nothing and leaves the dust alone.
    if total_locked == 0 {
        let mut payouts: Vec<u64> = Vec::new();
        let mut j: usize = 0;
        while j < n
            invariant
                0 <= j <= n,
                payouts@ == Seq::new(j as nat, |k: int| 0u64),
            decreases n - j,
        {
            payouts.push(0);
            proof {
                assert(payouts@ =~= Seq::new(j as nat + 1, |k: int| 0u64));
            }
            j = j + 1;
        }
        proof {
            lemma_distributable_zero_locked(
                *policy,
                current_day_claimed,
                current_day_distributed_investors,
            );
            assert(payouts_view(payouts@) =~= Seq::new(n as nat, |k: int| 0int));
        }
        return Ok(DistributionResult {
            payouts,
            total_distributed: 0,
            remaining_dust: carry_over_dust,
            investors_paid: 0,
        });
    }

    // Eligible share: the configured maximum limited by the locked fraction.
    let f_locked = calculate_locked_fraction(total_locked, policy.total_investor_allocation);
    let share = policy.investor_fee_share_bps as u64;
    let eligible_bps = if share <= f_locked {
        share
    } else {
        f_locked
    };
    proof {
        assert(eligible_bps == eligible_share_bps(*policy, sum(s)));
        assert(current_day_claimed * eligible_bps <= current_day_claimed * BASIS_POINTS_DIVISOR)
            by (nonlinear_arith)
            requires eligible_bps <= BASIS_POINTS_DIVISOR, current_day_claimed >= 0;
        assert(current_day_claimed * eligible_bps >= 0) by (nonlinear_arith)
            requires current_day_claimed >= 0, eligible_bps >= 0;
        lemma_div_is_ordered(
            current_day_claimed * eligible_bps,
            current_day_claimed * (BASIS_POINTS_DIVISOR as int),
            BASIS_POINTS_DIVISOR as int,
        );
        assert(current_day_claimed * (BASIS_POINTS_DIVISOR as int)
            == (BASIS_POINTS_DIVISOR as int) * current_day_claimed) by (nonlinear_arith);
        lemma_div_multiples_vanish(current_day_claimed as int, BASIS_POINTS_DIVISOR as int);
        lemma_div_pos_is_pos(current_day_claimed * eligible_bps, BASIS_POINTS_DIVISOR as int);
    }
    let quote_wide = (current_day_claimed as u128) * (eligible_bps as u128)
        / (BASIS_POINTS_DIVISOR as u128);
    let investor_quote = quote_wide as u64;
    proof {
        assert(investor_quote == investor_fee_quote(current_day_claimed, eligible_bps as int));
    }

    // The day's claim bounds every page: only what earlier pages have
    // not yet distributed may still go to investors.
    let remaining_claim = if current_day_claimed >= current_day_distributed_investors {
        current_day_claimed - current_day_distributed_investors
    } else {
        0
    };
    let quote_in_claim = if investor_quote <= remaining_claim {
        investor_quote
    } else {
        remaining_claim
    };

    // Daily cap: what room is left under it, if one is configured.
    let remaining_cap = if policy.daily_cap_lamports > 0 {
        if policy.daily_cap_lamports >= current_day_distributed_investors {
            policy.daily_cap_lamports - current_day_distributed_investors
        } else {
            0
        }
    } else {
        u64::MAX
    };
    let distributable = if quote_in_claim <= remaining_cap {
        quote_in_claim
    } else {
        remaining_cap
    };
    proof {
        assert(distributable == distributable_amount(
            *policy,
            current_day_claimed,
            current_day_distributed_investors,
            sum(s),
        ));
    }

    // The pool a page draws from: the distributable amount plus dust.
    if carry_over_dust > u64::MAX - distributable {
        return Err(FeeDistributorError::ArithmeticOverflow);
    }
    let mut available = distributable + carry_over_dust;

    let ghost tl = total_locked as int;
    let ghost d = distributable as int;
    let ghost min_p = policy.min_payout_lamports;
    let ghost avail0 = available as int;
    let ghost o_full = page_outcome(s, tl, d, min_p, avail0);

    let mut payouts: Vec<u64> = Vec::new();
    let mut total_distributed: u64 = 0;
    let mut investors_paid: usize = 0;
    let mut stopped = false;
    let mut i: usize = 0;
    proof {
        assert(s.skip(0) =~= s);
        assert(payouts_view(payouts@) =~= Seq::<int>::empty());
        assert(Seq::<int>::empty() + o_full.payouts =~= o_full.payouts);
    }
    while i < n
        invariant
            0 <= i <= n,
            payouts@.len() == i,
            total_distributed + available == avail0,
            investors_paid <= i,
            !stopped ==> ({
                let rest = page_outcome(s.skip(i as int), tl, d, min_p, available as int);
                &&& o_full.payouts == payouts_view(payouts@) + rest.payouts
                &&& o_full.paid == investors_paid + rest.paid
                &&& o_full.total == total_distributed + rest.total
                &&& o_full.remaining == rest.remaining
            }),
            stopped ==> ({
                &&& o_full.payouts == payouts_view(payouts@)
                    + Seq::new((n - i) as nat, |k: int| 0int)
                &&& o_full.paid == investors_paid
                &&& o_full.total == total_distributed
                &&& o_full.remaining == available as int
            }),
        decreases n - i,
    {
        let ghost pv = payouts_view(payouts@);
        if stopped {
            payouts.push(0);
            proof {
                assert(payouts_view(payouts@) =~= pv + seq![0int]);
                assert(Seq::new((n - i) as nat, |k: int| 0int)
                    =~= seq![0int] + Seq::new((n - i - 1) as nat, |k: int| 0int));
                assert((pv + seq![0int]) + Seq::new((n - i - 1) as nat, |k: int| 0int)
                    =~= pv + (seq![0int] + Seq::new((n - i - 1) as nat, |k: int| 0int)));
            }
        } else {
            proof {
                assert(s.skip(i as int).drop_first() =~= s.skip(i as int + 1));
                assert(s.skip(i as int)[0] == s[i as int]);
            }
            let l = locked_amounts[i];
            if l == 0 {
                payouts.push(0);
                proof {
                    let rest = page_outcome(s.skip(i as int), tl, d, min_p, available as int);
                    let rest1 = page_outcome(s.skip(i as int + 1), tl, d, min_p, available as int);
                    assert(rest.payouts == seq![0int] + rest1.payouts);
                    assert(payouts_view(payouts@) =~= pv + seq![0int]);
                    assert((pv + seq![0int]) + rest1.payouts =~= pv + (seq![0int] + rest1.payouts));
                }
            } else {
                // This investor's weight, in basis points.
                proof {
                    lemma_elem_le_sum(s, i as int);
                    assert(l * BASIS_POINTS_DIVISOR <= total_locked * BASIS_POINTS_DIVISOR)
                        by (nonlinear_arith)
                        requires l <= total_locked;
                    assert(l * BASIS_POINTS_DIVISOR >= 0) by (nonlinear_arith)
                        requires l >= 0;
                    lemma_div_is_ordered(
                        l * BASIS_POINTS_DIVISOR,
                        total_locked * (BASIS_POINTS_DIVISOR as int),
                        total_locked as int,
                    );
                    assert(total_locked * (BASIS_POINTS_DIVISOR as int)
                        == (total_locked as int) * (BASIS_POINTS_DIVISOR as int));
                    lemma_div_by_multiple(BASIS_POINTS_DIVISOR as int, total_locked as int);
                    assert((BASIS_POINTS_DIVISOR as int) * (total_locked as int)
                        == (total_locked as int) * (BASIS_POINTS_DIVISOR as int))
                        by (nonlinear_arith);
                    lemma_div_pos_is_pos(l * BASIS_POINTS_DIVISOR, total_locked as int);
                }
                let weight_wide = (l as u128) * (BASIS_POINTS_DIVISOR as u128)
                    / (total_locked as u128);
                let weight = weight_wide as u64;
                proof {
                    assert(weight == weight_bps(l as int, tl));
                    assert(weight <= BASIS_POINTS_DIVISOR);
                    assert(d * weight <= d * BASIS_POINTS_DIVISOR) by (nonlinear_arith)
                        requires weight <= BASIS_POINTS_DIVISOR, d >= 0;
                    assert(d * weight >= 0) by (nonlinear_arith)
                        requires d >= 0, weight >= 0;
                    lemma_div_is_ordered(
                        d * weight,
                        d * (BASIS_POINTS_DIVISOR as int),
                        BASIS_POINTS_DIVISOR as int,
                    );
                    assert(d * (BASIS_POINTS_DIVISOR as int)
                        == (BASIS_POINTS_DIVISOR as int) * d) by (nonlinear_arith);
                    lemma_div_multiples_vanish(d, BASIS_POINTS_DIVISOR as int);
                    lemma_div_pos_is_pos(d * weight, BASIS_POINTS_DIVISOR as int);
                }
                let payout_wide = (distributable as u128) * (weight as u128)
                    / (BASIS_POINTS_DIVISOR as u128);
                let payout = payout_wide as u64;
                proof {
                    assert(payout == payout_amount(d, weight_bps(l as int, tl)));
                }
                if payout < policy.min_payout_lamports {
                    payouts.push(0);
                    proof {
                        let rest = page_outcome(s.skip(i as int), tl, d, min_p, available as int);
                        let rest1 = page_outcome(
                            s.skip(i as int + 1),
                            tl,
                            d,
                            min_p,
                            available as int,
                        );
                        assert(rest.payouts == seq![0int] + rest1.payouts);
                        assert(payouts_view(payouts@) =~= pv + seq![0int]);
                        assert((pv + seq![0int]) + rest1.payouts
                            =~= pv + (seq![0int] + rest1.payouts));
                    }
                } else if payout > available {
                    stopped = true;
                    payouts.push(0);
                    proof {
                        let rest = page_outcome(s.skip(i as int), tl, d, min_p, available as int);
                        assert(rest.payouts == Seq::new((n - i) as nat, |k: int| 0int));
                        assert(payouts_view(payouts@) =~= pv + seq![0int]);
                        assert(Seq::new((n - i) as nat, |k: int| 0int)
                            =~= seq![0int] + Seq::new((n - i - 1) as nat, |k: int| 0int));
                        assert((pv + seq![0int]) + Seq::new((n - i - 1) as nat, |k: int| 0int)
                            =~= pv + (seq![0int] + Seq::new((n - i - 1) as nat, |k: int| 0int)));
                    }
                } else {
                    available = available - payout;
                    total_distributed = total_distributed + payout;
                    investors_paid = investors_paid + 1;
                    payouts.push(payout);
                    proof {
                        let rest = page_outcome(
                            s.skip(i as int),
                            tl,
                            d,
                            min_p,
                            available as int + payout,
                        );
                        let rest1 = page_outcome(s.skip(i as int + 1), tl, d, min_p, available as int);
                        assert(rest.payouts == seq![payout as int] + rest1.payouts);
                        assert(payouts_view(payouts@) =~= pv + seq![payout as int]);
                        assert((pv + seq![payout as int]) + rest1.payouts
                            =~= pv + (seq![payout as int] + rest1.payouts));
                    }
                }
            }
        }
        i = i + 1;
    }
    proof {
        if !stopped {
            assert(s.skip(n as int) =~= Seq::<u64>::empty());
            let rest = page_outcome(s.skip(n as int), tl, d, min_p, available as int);
            assert(rest.payouts == Seq::<int>::empty());
            assert(payouts_view(payouts@) + Seq::<int>::empty() =~= payouts_view(payouts@));
        } else {
            assert(Seq::new(0nat, |k: int| 0int) =~= Seq::<int>::empty());
            assert(payouts_view(payouts@) + Seq::new(0nat, |k: int| 0int)
                =~= payouts_view(payouts@));
        }
        lemma_page_total_le_distributable(s, d, min_p, avail0);
    }
    Ok(DistributionResult { payouts, total_distributed, remaining_dust: available, investors_paid })
}

/// Locked fraction of the allocation in basis points, saturating at
/// 100%: `min(total_locked * 10000 / y0, 10000)`, and 0 when `y0` is 0.
pub open spec fn locked_fraction_bps(total_locked: int, y0: int) -> int {
    if y0 <= 0 {
        0
    } else if total_locked * BASIS_POINTS_DIVISOR / y0 > BASIS_POINTS_DIVISOR {
        BASIS_POINTS_DIVISOR as int
    } else {
        total_locked * BASIS_POINTS_DIVISOR / y0
    }
}

/// Share of the day's claim owed to investors, in basis points: the
/// configured maximum, further limited by the locked fraction.
pub open spec fn eligible_share_bps(policy: DistributionPolicy, total_locked: int) -> int {
    let f = locked_fraction_bps(total_locked, policy.total_investor_allocation as int);
    if policy.investor_fee_share_bps <= f {
        policy.investor_fee_share_bps as int
    } else {
        f
    }
}

/// Fraction of the allocation still locked, saturating at 100%.
pub fn calculate_locked_fraction(locked_total: u64, y0: u64) -> (f: u64)
    ensures
        f == locked_fraction_bps(locked_total as int, y0 as int),
        f <= BASIS_POINTS_DIVISOR,
{
    if y0 == 0 {
        return 0;
    }
    proof {
        assert(locked_total * BASIS_POINTS_DIVISOR <= u64::MAX * BASIS_POINTS_DIVISOR)
            by (nonlinear_arith)
            requires locked_total <= u64::MAX;
    }
    let fraction = (locked_total as u128 * BASIS_POINTS_DIVISOR as u128) / (y0 as u128);
    if fraction > BASIS_POINTS_DIVISOR as u128 {
        BASIS_POINTS_DIVISOR
    } else {
        fraction as u64
    }
}

/// The creator's remainder when a page closes the day: whatever of the
/// day's claim was not distributed to investors, limited by what the
/// treasury actually holds.
pub open spec fn creator_remainder(claimed: u64, distributed: u64, treasury_balance: u64) -> int {
    let remainder = if claimed >= distributed {
        claimed - distributed
    } else {
        0
    };
    if remainder <= treasury_balance {
        remainder
    } else {
        treasury_balance as int
    }
}

/// Amount to transfer to the creator when the last page of the day has
/// been processed: `min(claimed - distributed, treasury_balance)`,
/// saturating at 0.
pub fn distribute_remainder_to_creator(
    current_day_claimed: u64,
    current_day_distributed_investors: u64,
    treasury_balance: u64,
) -> (amount: u64)
    ensures
        amount == creator_remainder(
            current_day_claimed,
            current_day_distributed_investors,
            treasury_balance,
        ),
{
    if treasury_balance == 0 {
        return 0;
    }
    let remainder = if current_day_claimed >= current_day_distributed_investors {
        current_day_claimed - current_day_distributed_investors
    } else {
        0
    };
    if remainder <= treasury_balance {
        remainder
    } else {
        treasury_balance
    }
}

/// The locked amount held in a lock-record byte image: the
/// little-endian 64-bit integer at byte offset 8.
pub open spec fn stream_locked_amount(data: Seq<u8>) -> int
    recommends
        data.len() >= 16,
{
    data[8] + data[9] * 0x100 + data[10] * 0x1_0000 + data[11] * 0x100_0000 + data[12]
        * 0x1_0000_0000 + data[13] * 0x100_0000_0000 + data[14] * 0x1_0000_0000_0000 + data[15]
        * 0x100_0000_0000_0000
}

/// Read an investor's still-locked amount out of the raw bytes of an
/// external lock-record account: a record must be at least 16 bytes,
/// and holds the locked amount as a little-endian u64 at offset 8.
pub fn read_streamflow_locked_amount(stream_data: &[u8], _current_ts: i64) -> (r: Result<
    u64,
    FeeDistributorError,
>)
    ensures
        r is Err <==> stream_data@.len() < 16,
        r is Err ==> r->Err_0 == FeeDistributorError::InvalidStreamAccount,
        r is Ok ==> r->Ok_0 == stream_locked_amount(stream_data@),
{
    if stream_data.len() < 16 {
        return Err(FeeDistributorError::InvalidStreamAccount);
    }
    let b0 = stream_data[8] as u64;
    let b1 = stream_data[9] as u64;
    let b2 = stream_data[10] as u64;
    let b3 = stream_data[11] as u64;
    let b4 = stream_data[12] as u64;
    let b5 = stream_data[13] as u64;
    let b6 = stream_data[14] as u64;
    let b7 = stream_data[15] as u64;
    Ok(
        b0 + b1 * 0x100 + b2 * 0x1_0000 + b3 * 0x100_0000 + b4 * 0x1_0000_0000 + b5
            * 0x100_0000_0000 + b6 * 0x1_0000_0000_0000 + b7 * 0x100_0000_0000_0000,
    )
}

/// Emitted when a new day opens: what was claimed, and when.
#[derive(Clone, Copy, Debug, PartialEq, Eq, Structural)]
pub struct QuoteFeesClaimed {
    pub amount: u64,
    pub timestamp: i64,
}

/// Emitted for every processed page: its bounds and what it paid.
#[derive(Clone, Copy, Debug, PartialEq, Eq, Structural)]
pub struct InvestorPayoutPage {
    pub page_start: u32,
    pub page_end: u32,
    pub investors_paid: u8,
    pub total_amount: u64,
}

/// Emitted when the last page closes the day: the creator's remainder.
#[derive(Clone, Copy, Debug, PartialEq, Eq, Structural)]
pub struct CreatorPayoutDayClosed {
    pub amount: u64,
    pub day_timestamp: i64,
}

/// Everything one successful distribute call decides: the claim to
/// record if the call opened a new day, the page's payout schedule for
/// the transfer executor, and the creator payout if the page closed the
/// day.
#[derive(Debug)]
pub struct DistributeOutcome {
    /// Present exactly when the call opened a new day.
    pub fees_claimed: Option<QuoteFeesClaimed>,
    /// The processed page and what it paid.
    pub page: InvestorPayoutPage,
    /// Payout per page slot, in page order; slot `i` belongs to the
    /// investor at index `page_start + i`.
    pub payouts: Vec<u64>,
    /// Present exactly when the page closed the day.
    pub day_closed: Option<CreatorPayoutDayClosed>,
}

/// The day and page effects of one distribute call, as one value.
pub struct DistributeStep {
    /// The progress record after the call's single commit.
    pub progress: DistributionProgress,
    /// Whether the call opened a new day.
    pub new_day: bool,
    /// First investor index of the page.
    pub page_start: int,
    /// One past the last investor index of the page.
    pub page_end: int,
    /// Payout per page slot.
    pub payouts: Seq<int>,
    /// Number of investors paid.
    pub investors_paid: int,
    /// Total paid to investors by this page.
    pub total_distributed: int,
    /// Whether the page closed the day.
    pub day_closed: bool,
    /// What the creator receives when the page closes the day.
    pub creator_payout: int,
}

/// The day state a distribute call works against: the stored record,
/// or a freshly opened day holding the claimed amount.
pub open spec fn effective_day(
    pre: DistributionProgress,
    current_ts: i64,
    claimed_amount: u64,
) -> DistributionProgress {
    if pre.spec_is_new_day(current_ts) {
        DistributionProgress {
            current_day_claimed: claimed_amount,
            ..pre.spec_day_start(current_ts)
        }
    } else {
        pre
    }
}

/// The whole distribute state machine step: every way a call is
/// rejected, in the order the checks run, and the single commit a
/// successful call makes.
pub open spec fn distribute_spec(
    policy: DistributionPolicy,
    pre: DistributionProgress,
    current_ts: i64,
    page_size: u8,
    expected_cursor: u32,
    claimed_amount: u64,
    locked: Seq<u64>,
    treasury_balance: u64,
) -> Result<DistributeStep, FeeDistributorError> {
    let new_day = pre.spec_is_new_day(current_ts);
    if page_size == 0 || page_size > MAX_PAGE_SIZE {
        Err(FeeDistributorError::InvalidPageSize)
    } else if new_day && pre.pagination_cursor != 0 && !pre.day_completed {
        Err(FeeDistributorError::NotFirstPage)
    } else if !new_day && pre.day_completed {
        Err(FeeDistributorError::DayAlreadyCompleted)
    } else if !new_day && current_ts < pre.last_distribution_ts {
        Err(FeeDistributorError::TooSoonToDistribute)
    } else {
        let day = effective_day(pre, current_ts, claimed_amount);
        let start = day.pagination_cursor as int;
        if expected_cursor != day.pagination_cursor || start >= day.total_investors {
            Err(FeeDistributorError::InvalidPaginationCursor)
        } else {
            let end = if start + page_size <= day.total_investors {
                start + page_size
            } else {
                day.total_investors as int
            };
            if page_overflows(
                locked,
                policy,
                day.current_day_claimed,
                day.current_day_distributed_investors,
                day.carry_over_dust,
            ) || day.current_day_distributed_investors + page_distribution(
                locked,
                policy,
                day.current_day_claimed,
                day.current_day_distributed_investors,
                day.carry_over_dust,
            ).total > u64::MAX {
                Err(FeeDistributorError::ArithmeticOverflow)
            } else {
                let o = page_distribution(
                    locked,
                    policy,
                    day.current_day_claimed,
                    day.current_day_distributed_investors,
                    day.carry_over_dust,
                );
                let distributed = (day.current_day_distributed_investors + o.total) as u64;
                let closes = end == day.total_investors;
                let creator = if closes {
                    creator_remainder(day.current_day_claimed, distributed, treasury_balance)
                } else {
                    0
                };
                Ok(DistributeStep {
                    progress: DistributionProgress {
                        last_distribution_ts: day.last_distribution_ts,
                        current_day_claimed: day.current_day_claimed,
                        current_day_distributed_investors: distributed,
                        current_day_distributed_creator: if closes {
                            creator as u64
                        } else {
                            day.current_day_distributed_creator
                        },
                        carry_over_dust: o.remaining as u64,
                        pagination_cursor: end as u32,
                        day_completed: closes,
                        total_investors: day.total_investors,
                    },
                    new_day,
                    page_start: start,
                    page_end: end,
                    payouts: o.payouts,
                    investors_paid: o.paid,
                    total_distributed: o.total,
                    day_closed: closes,
                    creator_payout: creator,
                })
            }
        }
    }
}

/// Whether a call passes every validation and sequencing gate, so that
/// a page actually runs (the call may still abort on overflow).
pub open spec fn page_accepted(
    pre: DistributionProgress,
    current_ts: i64,
    page_size: u8,
    expected_cursor: u32,
) -> bool {
    let new_day = pre.spec_is_new_day(current_ts);
    &&& 0 < page_size <= MAX_PAGE_SIZE
    &&& new_day ==> pre.pagination_cursor == 0 || pre.day_completed
    &&& !new_day ==> !pre.day_completed && current_ts >= pre.last_distribution_ts
    &&& expected_cursor == accepted_page_start(pre, current_ts)
    &&& accepted_page_start(pre, current_ts) < pre.total_investors
}

/// First investor index an accepted call processes.
pub open spec fn accepted_page_start(pre: DistributionProgress, current_ts: i64) -> int {
    if pre.spec_is_new_day(current_ts) {
        0
    } else {
        pre.pagination_cursor as int
    }
}

/// One past the last investor index an accepted call processes.
pub open spec fn accepted_page_end(
    pre: DistributionProgress,
    current_ts: i64,
    page_size: u8,
) -> int {
    let start = accepted_page_start(pre, current_ts);
    if start + page_size <= pre.total_investors {
        start + page_size
    } else {
        pre.total_investors as int
    }
}

/// Sequencing of distribute calls against a well-formed progress
/// record, as `distribute_spec` decides them:
/// - once a day is completed, a call before the next 24-hour gate
///   cannot reopen it or pay anything: it fails, with
///   `DayAlreadyCompleted` whenever the page size itself was valid;
/// - a call that would open a new day while a page is still in flight
///   (stored cursor not 0 and the day not completed) fails with
///   `NotFirstPage`;
/// - within an open day, a clock reading before the day's own start
///   fails with `TooSoonToDistribute`.
pub proof fn lemma_distribute_sequencing(
    policy: DistributionPolicy,
    pre: DistributionProgress,
    current_ts: i64,
    page_size: u8,
    expected_cursor: u32,
    claimed_amount: u64,
    locked: Seq<u64>,
    treasury_balance: u64,
)
    requires
        pre.wf(),
    ensures
        pre.day_completed && current_ts < pre.last_distribution_ts + SECONDS_PER_DAY
            ==> distribute_spec(
            policy,
            pre,
            current_ts,
            page_size,
            expected_cursor,
            claimed_amount,
            locked,
            treasury_balance,
        ) is Err,
        pre.day_completed && current_ts < pre.last_distribution_ts + SECONDS_PER_DAY && 0
            < page_size <= MAX_PAGE_SIZE ==> distribute_spec(
            policy,
            pre,
            current_ts,
            page_size,
            expected_cursor,
            claimed_amount,
            locked,
            treasury_balance,
        ) == Err::<DistributeStep, FeeDistributorError>(FeeDistributorError::DayAlreadyCompleted),
        current_ts >= pre.last_distribution_ts + SECONDS_PER_DAY && pre.pagination_cursor != 0
            && !pre.day_completed && 0 < page_size <= MAX_PAGE_SIZE ==> distribute_spec(
            policy,
            pre,
            current_ts,
            page_size,
            expected_cursor,
            claimed_amount,
            locked,
            treasury_balance,
        ) == Err::<DistributeStep, FeeDistributorError>(FeeDistributorError::NotFirstPage),
        current_ts < pre.last_distribution_ts + SECONDS_PER_DAY && !pre.day_completed && current_ts
            < pre.last_distribution_ts && 0 < page_size <= MAX_PAGE_SIZE ==> distribute_spec(
            policy,
            pre,
            current_ts,
            page_size,
            expected_cursor,
            claimed_amount,
            locked,
            treasury_balance,
        ) == Err::<DistributeStep, FeeDistributorError>(FeeDistributorError::TooSoonToDistribute),
{
}

/// One distribute call: validate the page, open a new day when the
/// 24-hour gate has elapsed, run the payout calculator over the page,
/// and commit the progress record once, at the very end.
///
/// On any error the progress record is untouched. On success the record
/// and the returned outcome are exactly what `distribute_spec` says;
/// moreover the progress invariants are preserved, the daily cap is
/// respected, and the cursor strictly advances (it never moves
/// backwards, and resets only through the new-day transition that this
/// call itself verifies).
///
/// `claimed_amount` is what the fee claimer brought in; it is recorded
/// only when this call opens a new day. `expected_cursor` is the page
/// start the caller prepared for; a stale retry whose cursor no longer
/// matches the stored progress is rejected rather than paid twice.
pub fn handler(
    policy: &DistributionPolicy,
    progress: &mut DistributionProgress,
    current_ts: i64,
    page_size: u8,
    expected_cursor: u32,
    claimed_amount: u64,
    locked_amounts: &Vec<u64>,
    treasury_balance: u64,
) -> (r: Result<DistributeOutcome, FeeDistributorError>)
    requires
        policy.wf(),
        old(progress).wf(),
        old(progress).within_limits(*policy),
        0 <= current_ts <= i64::MAX - SECONDS_PER_DAY,
        page_accepted(*old(progress), current_ts, page_size, expected_cursor)
            ==> locked_amounts@.len() == accepted_page_end(*old(progress), current_ts, page_size)
            - accepted_page_start(*old(progress), current_ts),
    ensures
        ({
            let step_r = distribute_spec(
                *policy,
                *old(progress),
                current_ts,
                page_size,
                expected_cursor,
                claimed_amount,
                locked_amounts@,
                treasury_balance,
            );
            &&& (r is Err <==> step_r is Err)
            &&& r is Err ==> r->Err_0 == step_r->Err_0 && *final(progress) == *old(progress)
            &&& r is Ok ==> ({
                let step = step_r->Ok_0;
                let out = r->Ok_0;
                &&& *final(progress) == step.progress
                &&& payouts_view(out.payouts@) == step.payouts
                &&& out.page.page_start == step.page_start
                &&& out.page.page_end == step.page_end
                &&& out.page.investors_paid == step.investors_paid
                &&& out.page.total_amount == step.total_distributed
                &&& out.fees_claimed == (if step.new_day {
                    Some(QuoteFeesClaimed { amount: claimed_amount, timestamp: current_ts })
                } else {
                    None::<QuoteFeesClaimed>
                })
                &&& out.day_closed == (if step.day_closed {
                    Some(CreatorPayoutDayClosed {
                        amount: step.creator_payout as u64,
                        day_timestamp: current_ts,
                    })
                } else {
                    None::<CreatorPayoutDayClosed>
                })
            })
        }),
        // The progress invariants survive every successful call.
        r is Ok ==> final(progress).wf() && final(progress).within_limits(*policy),
        // Within a day the cursor strictly advances; it starts over
        // only through a verified new-day transition.
        r is Ok ==> final(progress).pagination_cursor > old(progress).pagination_cursor
            || old(progress).spec_is_new_day(current_ts),
        r is Ok ==> final(progress).pagination_cursor > 0,
        r is Ok ==> final(progress).total_investors == old(progress).total_investors,
{
    // Validation: the page size, before anything else.
    if page_size == 0 || page_size > MAX_PAGE_SIZE {
        return Err(FeeDistributorError::InvalidPageSize);
    }

    // Sequencing: the 24-hour gate and the page order. A new day may
    // open only from a fresh cursor or a completed previous day; a
    // mid-page reset is forbidden.
    let new_day = progress.is_new_day(current_ts);
    if new_day {
        if progress.pagination_cursor != 0 && !progress.day_completed {
            return Err(FeeDistributorError::NotFirstPage);
        }
    } else {
        if progress.day_completed {
            return Err(FeeDistributorError::DayAlreadyCompleted);
        }
        if current_ts < progress.last_distribution_ts {
            return Err(FeeDistributorError::TooSoonToDistribute);
        }
    }

    // The day this call works against: the stored one, or a fresh one
    // holding the claimed amount. Nothing is written back yet.
    let day_last_ts = if new_day {
        current_ts
    } else {
        progress.last_distribution_ts
    };
    let day_claimed = if new_day {
        claimed_amount
    } else {
        progress.current_day_claimed
    };
    let day_distributed: u64 = if new_day {
        0
    } else {
        progress.current_day_distributed_investors
    };
    let day_creator: u64 = if new_day {
        0
    } else {
        progress.current_day_distributed_creator
    };
    let day_dust: u64 = if new_day {
        0
    } else {
        progress.carry_over_dust
    };
    let day_cursor: u32 = if new_day {
        0
    } else {
        progress.pagination_cursor
    };
    proof {
        assert(effective_day(*progress, current_ts, claimed_amount) == (DistributionProgress {
            last_distribution_ts: day_last_ts,
            current_day_claimed: day_claimed,
            current_day_distributed_investors: day_distributed,
            current_day_distributed_creator: day_creator,
            carry_over_dust: day_dust,
            pagination_cursor: day_cursor,
            day_completed: if new_day { false } else { progress.day_completed },
            total_investors: progress.total_investors,
        }));
    }

    // Pagination bounds: the caller's cursor must match the stored one.
    if expected_cursor != day_cursor || day_cursor >= progress.total_investors {
        return Err(FeeDistributorError::InvalidPaginationCursor);
    }
    let start = day_cursor;
    let end_wide = start as u64 + page_size as u64;
    let end: u32 = if end_wide <= progress.total_investors as u64 {
        end_wide as u32
    } else {
        progress.total_investors
    };

    // The page itself: pure arithmetic over the supplied locked amounts.
    let result = match distribute_to_investors(
        locked_amounts,
        policy,
        day_claimed,
        day_distributed,
        day_dust,
    ) {
        Ok(res) => res,
        Err(e) => {
            return Err(e);
        },
    };

    // Commit-time overflow check on the day's running total.
    if result.total_distributed > u64::MAX - day_distributed {
        return Err(FeeDistributorError::ArithmeticOverflow);
    }
    let new_distributed = day_distributed + result.total_distributed;

    proof {
        assert(page_accepted(*progress, current_ts, page_size, expected_cursor));
        assert(start == accepted_page_start(*progress, current_ts));
        assert(end == accepted_page_end(*progress, current_ts, page_size));
        assert(locked_amounts@.len() == end - start);
        assert(result.investors_paid <= page_size);
    }

    // Closing the day pays the creator the remainder of the claim.
    let closes = end == progress.total_investors;
    let creator_amount = if closes {
        distribute_remainder_to_creator(day_claimed, new_distributed, treasury_balance)
    } else {
        0
    };

    // The single commit: every mutation of the progress record.
    progress.last_distribution_ts = day_last_ts;
    progress.current_day_claimed = day_claimed;
    progress.current_day_distributed_investors = new_distributed;
    progress.current_day_distributed_creator = if closes {
        creator_amount
    } else {
        day_creator
    };
    progress.carry_over_dust = result.remaining_dust;
    progress.pagination_cursor = end;
    progress.day_completed = closes;

    Ok(DistributeOutcome {
        fees_claimed: if new_day {
            Some(QuoteFeesClaimed { amount: claimed_amount, timestamp: current_ts })
        } else {
            None
        },
        page: InvestorPayoutPage {
            page_start: start,
            page_end: end,
            investors_paid: result.investors_paid as u8,
            total_amount: result.total_distributed,
        },
        payouts: result.payouts,
        day_closed: if closes {
            Some(CreatorPayoutDayClosed { amount: creator_amount, day_timestamp: current_ts })
        } else {
            None
        },
    })
}

} // verus!
