//! Wallet allocation planner.
//!
//! Each participating wallet gets an independent random buyback fraction
//! from the half-open interval `[baseline - 2%, configured maximum)` and the
//! absolute token amount is that fraction of the total supply, truncating.
//! Fractions are held in parts per million so that the whole computation is
//! integer arithmetic.

use crate::errors::BuildError;
use rand::Rng;
use vstd::arithmetic::div_mod::lemma_div_is_ordered;
use vstd::arithmetic::mul::lemma_mul_inequality;
use vstd::prelude::*;

verus! {

/// Fractions are scaled by this denominator: parts per million.
pub const PPM: u64 = 1_000_000;

/// Lower edge of the sampling interval: the baseline fraction less two
/// percent of itself, truncating.
pub open spec fn spec_lower_ppm(baseline_ppm: int) -> int {
    baseline_ppm * 98 / 100
}

/// Absolute token amount for a sampled fraction: the fraction of the total
/// supply, truncating.
pub open spec fn spec_allocation_amount(total_supply: int, frac_ppm: int) -> int {
    total_supply * frac_ppm / 1_000_000
}

/// The planner's overflow precondition: any fraction of the supply up to
/// one whole fits in `u128`.
pub open spec fn spec_supply_fits(total_supply: int) -> bool {
    total_supply * 1_000_000 <= u128::MAX
}

/// Relies on rand's `Rng::gen_range` on `lo..hi` (with `rand::thread_rng`
/// as the generator): the sample always lies in the half-open range, and
/// the call panics only on an empty range, which the precondition rules
/// out.  Nothing more is assumed of the draw.
#[verifier::external_body]
fn sample_fraction_ppm(lo: u64, hi: u64) -> (r: u64)
    requires
        lo < hi,
    ensures
        lo <= r < hi,
{
    rand::thread_rng().gen_range(lo..hi)
}

/// Scaling a larger fraction of the same supply never yields a smaller
/// amount: the allocation is monotone in the sampled fraction, so every
/// sampled allocation lies between the amounts at the interval's edges.
pub proof fn lemma_allocation_monotone(total_supply: int, f1: int, f2: int)
    requires
        total_supply >= 0,
        0 <= f1 <= f2,
    ensures
        spec_allocation_amount(total_supply, f1) <= spec_allocation_amount(total_supply, f2),
{
    lemma_mul_inequality(f1, f2, total_supply);
    lemma_div_is_ordered(total_supply * f1, total_supply * f2, 1_000_000);
}

/// The token amount for one sampled fraction: `total_supply * frac / PPM`,
/// truncating.
pub fn allocation_amount(total_supply: u128, frac_ppm: u64) -> (r: u128)
    requires
        spec_supply_fits(total_supply as int),
        frac_ppm <= PPM,
    ensures
        r as int == spec_allocation_amount(total_supply as int, frac_ppm as int),
{
    proof {
        lemma_mul_inequality(frac_ppm as int, 1_000_000, total_supply as int);
        assert(total_supply as int * frac_ppm as int <= total_supply as int * 1_000_000);
    }
    total_supply * (frac_ppm as u128) / 1_000_000
}

/// Draw one independent fraction per swap wallet and derive its absolute
/// token amount.
///
/// Fails exactly when the sampling interval is empty — the baseline lower
/// bound reaches or exceeds the configured maximum — and never loops or
/// clamps in that case.  On success every planned amount lies between the
/// amounts at the interval's two edges.
pub fn plan_allocations(total_supply: u128, baseline_ppm: u64, max_ppm: u64, n_wallets: usize) -> (r:
    Result<Vec<u128>, BuildError>)
    requires
        spec_supply_fits(total_supply as int),
        baseline_ppm <= PPM,
        max_ppm <= PPM,
    ensures
        r is Ok <==> spec_lower_ppm(baseline_ppm as int) < max_ppm as int,
        r matches Err(e) ==> e == BuildError::EmptySamplingRange,
        r matches Ok(v) ==> {
            &&& v@.len() == n_wallets
            &&& forall|i: int|
                #![trigger v@[i]]
                0 <= i < n_wallets ==> spec_allocation_amount(
                    total_supply as int,
                    spec_lower_ppm(baseline_ppm as int),
                ) <= v@[i] as int <= spec_allocation_amount(total_supply as int, max_ppm as int)
        },
{
    let lo = baseline_ppm * 98 / 100;
    proof {
        assert(lo as int == spec_lower_ppm(baseline_ppm as int));
    }
    if lo >= max_ppm {
        return Err(BuildError::EmptySamplingRange);
    }
    let mut amounts: Vec<u128> = Vec::new();
    let mut i: usize = 0;
    while i < n_wallets
        invariant
            lo as int == spec_lower_ppm(baseline_ppm as int),
            lo < max_ppm,
            max_ppm <= PPM,
            spec_supply_fits(total_supply as int),
            0 <= i <= n_wallets,
            amounts@.len() == i,
            forall|j: int|
                #![trigger amounts@[j]]
                0 <= j < i ==> spec_allocation_amount(
                    total_supply as int,
                    lo as int,
                ) <= amounts@[j] as int <= spec_allocation_amount(total_supply as int, max_ppm as int),
        decreases n_wallets - i,
    {
        let frac = sample_fraction_ppm(lo, max_ppm);
        let amount = allocation_amount(total_supply, frac);
        proof {
            lemma_allocation_monotone(total_supply as int, lo as int, frac as int);
            lemma_allocation_monotone(total_supply as int, frac as int, max_ppm as int);
        }
        amounts.push(amount);
        i = i + 1;
    }
    Ok(amounts)
}

} // verus!
