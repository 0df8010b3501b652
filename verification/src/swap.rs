//! Constant-product swap simulator.
//!
//! Pure integer arithmetic over the two pool reserves: given a desired token
//! output, predict the native-asset (ETH) input the pool will demand, with a
//! 997/1000 fee applied to the input leg, and evolve the reserves in place so
//! that the next wallet in sequence is priced against the pool state it will
//! actually see.  All divisions truncate; nothing is rounded up.

use crate::errors::BuildError;
use vstd::arithmetic::div_mod::{
    lemma_div_is_ordered, lemma_div_is_ordered_by_denominator, lemma_div_multiples_vanish_quotient,
    lemma_div_pos_is_pos, lemma_fundamental_div_mod_converse,
};
use vstd::arithmetic::mul::{lemma_mul_inequality, lemma_mul_nonnegative};
use vstd::prelude::*;

verus! {

/// The pool composition as the engine believes it will stand after the
/// prior transactions of the same bundle execute.
#[derive(Clone, Copy, Debug, PartialEq, Eq, Structural)]
pub struct Reserves {
    pub eth: u128,
    pub token: u128,
}

/// The planned token amounts as mathematical integers.
pub open spec fn amounts_of(v: Seq<u128>) -> Seq<int> {
    v.map_values(|a: u128| a as int)
}

/// Fee-adjusted amount: `amount * 997 / 1000`, truncating.
pub open spec fn spec_amount_with_fee(amount: int) -> int {
    amount * 997 / 1000
}

/// The ETH input the pool demands for `amount` tokens out, at reserves
/// `(reserve_eth, reserve_token)`: the inverse of the constant-product
/// invariant with the fee on the input leg, truncating.
///
/// Both divisions truncate and the quotient is deliberately not rounded
/// up, unlike the rounding-up convention common in comparable
/// constant-product implementations.  The estimate can therefore
/// under-collect the fee, and a simulation step can shrink the reserve
/// product — `lemma_truncation_can_shrink_product` records an instance —
/// so no non-decreasing-product invariant is claimed here.
pub open spec fn spec_eth_needed(amount: int, reserve_eth: int, reserve_token: int) -> int {
    reserve_eth * spec_amount_with_fee(amount) / (reserve_token + spec_amount_with_fee(amount))
}

/// The truncating estimate can shrink the constant product: at reserves
/// `(1000, 100000)` an output of `1000` costs `9`, and the post-swap
/// product `1009 * 99000` is below the starting `1000 * 100000`.  The
/// rounding-up convention would prevent this; the truncation is kept as
/// the pricing rule of this engine.
pub proof fn lemma_truncation_can_shrink_product()
    ensures
        spec_eth_needed(1000, 1000, 100000) == 9,
        (1000 + spec_eth_needed(1000, 1000, 100000)) * (100000 - 1000) < 1000 * 100000,
{
    lemma_fundamental_div_mod_converse(997000, 1000, 997, 0);
    assert(spec_amount_with_fee(1000) == 997);
    lemma_fundamental_div_mod_converse(997000, 100997, 9, 88027);
}

/// All intermediate values of one simulated swap fit in `u128`.
pub open spec fn spec_swap_fits(amount: int, reserve_eth: int, reserve_token: int) -> bool {
    &&& amount * 997 <= u128::MAX
    &&& reserve_eth * spec_amount_with_fee(amount) <= u128::MAX
    &&& reserve_token + spec_amount_with_fee(amount) <= u128::MAX
    &&& reserve_eth + spec_eth_needed(amount, reserve_eth, reserve_token) <= u128::MAX
}

/// Constant-product pricing over a two-asset pool.
pub struct ConstantProduct {}

impl ConstantProduct {
    /// Predict the ETH input for `token_amount` tokens out and update the
    /// reserves in place: the input is added to the ETH reserve and the
    /// output subtracted from the token reserve.  The caller must have
    /// pre-validated that the planned output leaves the token reserve
    /// strictly positive; underflow is never discovered here.
    pub fn calculate_eth_needed(
        token_amount: u128,
        reserve_eth: &mut u128,
        reserve_token: &mut u128,
    ) -> (eth_needed: u128)
        requires
            *old(reserve_eth) > 0,
            *old(reserve_token) > 0,
            token_amount < *old(reserve_token),
            spec_swap_fits(
                token_amount as int,
                *old(reserve_eth) as int,
                *old(reserve_token) as int,
            ),
        ensures
            eth_needed == spec_eth_needed(
                token_amount as int,
                *old(reserve_eth) as int,
                *old(reserve_token) as int,
            ),
            *final(reserve_eth) == *old(reserve_eth) + eth_needed,
            *final(reserve_token) == *old(reserve_token) - token_amount,
    {
        let amount_with_fee = token_amount * 997 / 1000;
        let numerator = *reserve_eth * amount_with_fee;
        let denominator = *reserve_token + amount_with_fee;
        let eth_needed = numerator / denominator;
        *reserve_eth = *reserve_eth + eth_needed;
        *reserve_token = *reserve_token - token_amount;
        eth_needed
    }
}

/// The fee-adjusted amount never goes down when the requested output
/// grows.
pub proof fn lemma_amount_with_fee_monotone(d1: int, d2: int)
    requires
        0 <= d1 <= d2,
    ensures
        0 <= spec_amount_with_fee(d1) <= spec_amount_with_fee(d2),
{
    lemma_mul_inequality(d1, d2, 997);
    lemma_mul_nonnegative(d1, 997);
    lemma_div_pos_is_pos(d1 * 997, 1000);
    lemma_div_is_ordered(d1 * 997, d2 * 997, 1000);
}

/// The predicted input is monotonically increasing in the desired output:
/// at fixed reserves, asking for more tokens never costs less ETH.
pub proof fn lemma_estimate_monotone_in_output(reserve_eth: int, reserve_token: int, d1: int, d2: int)
    requires
        reserve_eth >= 0,
        reserve_token > 0,
        0 <= d1 <= d2,
    ensures
        spec_eth_needed(d1, reserve_eth, reserve_token) <= spec_eth_needed(
            d2,
            reserve_eth,
            reserve_token,
        ),
{
    let a1 = spec_amount_with_fee(d1);
    let a2 = spec_amount_with_fee(d2);
    lemma_amount_with_fee_monotone(d1, d2);
    let x1 = reserve_eth * a1;
    let x2 = reserve_eth * a2;
    let den1 = reserve_token + a1;
    let den2 = reserve_token + a2;
    lemma_mul_nonnegative(reserve_eth, a1);
    lemma_mul_nonnegative(reserve_eth, a2);
    assert(x1 * den2 <= x2 * den1) by (nonlinear_arith)
        requires
            x1 == reserve_eth * a1,
            x2 == reserve_eth * a2,
            den1 == reserve_token + a1,
            den2 == reserve_token + a2,
            reserve_eth >= 0,
            reserve_token > 0,
            0 <= a1 <= a2,
    ;
    lemma_div_multiples_vanish_quotient(den2, x1, den1);
    lemma_div_multiples_vanish_quotient(den1, x2, den2);
    lemma_div_is_ordered(den2 * x1, den1 * x2, den2 * den1);
    assert(den1 * x2 == x2 * den1);
    assert(den2 * den1 == den1 * den2);
}

/// The predicted input is monotonically increasing in the input-side
/// reserve: a deeper ETH reserve never makes the same output cheaper.
pub proof fn lemma_estimate_monotone_in_reserve_in(d: int, re1: int, re2: int, reserve_token: int)
    requires
        0 <= re1 <= re2,
        reserve_token > 0,
        d >= 0,
    ensures
        spec_eth_needed(d, re1, reserve_token) <= spec_eth_needed(d, re2, reserve_token),
{
    let a = spec_amount_with_fee(d);
    lemma_amount_with_fee_monotone(d, d);
    lemma_mul_inequality(re1, re2, a);
    lemma_div_is_ordered(re1 * a, re2 * a, reserve_token + a);
}

/// The predicted input decreases as the output-side reserve grows away
/// from the desired output: with the output fixed, a deeper token reserve
/// never demands more ETH.
pub proof fn lemma_estimate_antitone_in_reserve_out(d: int, reserve_eth: int, rt1: int, rt2: int)
    requires
        reserve_eth >= 0,
        0 < rt1 <= rt2,
        d >= 0,
    ensures
        spec_eth_needed(d, reserve_eth, rt2) <= spec_eth_needed(d, reserve_eth, rt1),
{
    let a = spec_amount_with_fee(d);
    lemma_amount_with_fee_monotone(d, d);
    lemma_mul_nonnegative(reserve_eth, a);
    lemma_div_is_ordered_by_denominator(reserve_eth * a, rt1 + a, rt2 + a);
}

/// Sequential simulation is order-dependent in one provable direction:
/// running a wallet after another wallet's swap, which has grown the ETH
/// reserve and shrunk the token reserve, never lowers its required input.
/// Strict growth does not hold for every input: amounts small enough that
/// both truncated quotients coincide pay the same in either order.
pub proof fn lemma_later_position_never_cheaper(a: int, b: int, re0: int, rt0: int)
    requires
        re0 > 0,
        rt0 > 0,
        a >= 0,
        0 <= b < rt0,
    ensures
        spec_eth_needed(a, re0, rt0) <= spec_eth_needed(
            a,
            re0 + spec_eth_needed(b, re0, rt0),
            rt0 - b,
        ),
{
    let ab = spec_amount_with_fee(b);
    lemma_amount_with_fee_monotone(b, b);
    lemma_mul_nonnegative(re0, ab);
    lemma_div_pos_is_pos(re0 * ab, rt0 + ab);
    let inb = spec_eth_needed(b, re0, rt0);
    lemma_estimate_monotone_in_reserve_in(a, re0, re0 + inb, rt0);
    lemma_estimate_antitone_in_reserve_out(a, re0 + inb, rt0 - b, rt0);
}

/// Token reserve after the first `i` planned amounts have been swapped out.
pub open spec fn spec_rt_after(amts: Seq<int>, rt0: int, i: int) -> int
    decreases i,
{
    if i <= 0 {
        rt0
    } else {
        spec_rt_after(amts, rt0, i - 1) - amts[i - 1]
    }
}

/// ETH reserve after the first `i` swaps, each paying the input the pool
/// demanded at the reserves it actually saw.
pub open spec fn spec_re_after(amts: Seq<int>, re0: int, rt0: int, i: int) -> int
    decreases i,
{
    if i <= 0 {
        re0
    } else {
        let re = spec_re_after(amts, re0, rt0, i - 1);
        let rt = spec_rt_after(amts, rt0, i - 1);
        re + spec_eth_needed(amts[i - 1], re, rt)
    }
}

/// The ETH input the `i`-th swap in the sequence requires.
pub open spec fn spec_input_at(amts: Seq<int>, re0: int, rt0: int, i: int) -> int {
    spec_eth_needed(amts[i], spec_re_after(amts, re0, rt0, i), spec_rt_after(amts, rt0, i))
}

/// The `i`-th swap leaves the token reserve strictly positive.
pub open spec fn spec_step_liquid(amts: Seq<int>, rt0: int, i: int) -> bool {
    amts[i] < spec_rt_after(amts, rt0, i)
}

/// The `i`-th swap's arithmetic fits in `u128`.
pub open spec fn spec_step_fits(amts: Seq<int>, re0: int, rt0: int, i: int) -> bool {
    spec_swap_fits(amts[i], spec_re_after(amts, re0, rt0, i), spec_rt_after(amts, rt0, i))
}

pub open spec fn spec_step_ok(amts: Seq<int>, re0: int, rt0: int, i: int) -> bool {
    spec_step_liquid(amts, rt0, i) && spec_step_fits(amts, re0, rt0, i)
}

/// The whole sequence simulates without draining the pool or overflowing.
pub open spec fn spec_sim_ok(amts: Seq<int>, re0: int, rt0: int) -> bool {
    forall|i: int| 0 <= i < amts.len() ==> spec_step_ok(amts, re0, rt0, i)
}

/// The error a failing simulation reports: at the first wallet whose step
/// goes wrong, a liquidity shortage if the planned amount would drain the
/// token reserve, otherwise an arithmetic overflow.
pub open spec fn spec_sim_failure(amts: Seq<int>, re0: int, rt0: int, e: BuildError) -> bool {
    exists|k: int|
        #![trigger spec_step_ok(amts, re0, rt0, k)]
        0 <= k < amts.len() && (forall|j: int| 0 <= j < k ==> spec_step_ok(amts, re0, rt0, j))
            && !spec_step_ok(amts, re0, rt0, k) && e == (if !spec_step_liquid(amts, rt0, k) {
            BuildError::InsufficientLiquidity { wallet: k as usize }
        } else {
            BuildError::ArithmeticOverflow { wallet: k as usize }
        })
}

/// Simulate the whole wallet sequence against the shared reserve state.
///
/// On success the reserves hold the post-bundle pool composition and the
/// result lists, per wallet, the exact ETH input its swap must send.  On
/// any failure the reserves are left untouched and the error names the
/// first wallet at which the sequence goes wrong, a liquidity shortage
/// being detected before the swap's own arithmetic is attempted.
pub fn simulate_swaps(amounts: &Vec<u128>, reserves: &mut Reserves) -> (r: Result<
    Vec<u128>,
    BuildError,
>)
    requires
        old(reserves).eth > 0,
        old(reserves).token > 0,
    ensures
        r is Ok <==> spec_sim_ok(
            amounts_of(amounts@),
            old(reserves).eth as int,
            old(reserves).token as int,
        ),
        r matches Ok(inputs) ==> {
            let amts = amounts_of(amounts@);
            let re0 = old(reserves).eth as int;
            let rt0 = old(reserves).token as int;
            &&& inputs@.len() == amounts@.len()
            &&& forall|j: int|
                0 <= j < amounts@.len() ==> inputs@[j] as int == spec_input_at(amts, re0, rt0, j)
            &&& final(reserves).eth as int == spec_re_after(amts, re0, rt0, amounts@.len() as int)
            &&& final(reserves).token as int == spec_rt_after(amts, rt0, amounts@.len() as int)
            &&& final(reserves).eth > 0
            &&& final(reserves).token > 0
        },
        r matches Err(e) ==> {
            let amts = amounts_of(amounts@);
            let re0 = old(reserves).eth as int;
            let rt0 = old(reserves).token as int;
            &&& *final(reserves) == *old(reserves)
            &&& spec_sim_failure(amts, re0, rt0, e)
        },
{
    let ghost amts = amounts_of(amounts@);
    let ghost re0 = reserves.eth as int;
    let ghost rt0 = reserves.token as int;
    let mut re: u128 = reserves.eth;
    let mut rt: u128 = reserves.token;
    let mut inputs: Vec<u128> = Vec::new();
    let n = amounts.len();
    let mut i: usize = 0;
    while i < n
        invariant
            n == amounts@.len(),
            amts == amounts_of(amounts@),
            0 <= i <= n,
            re > 0,
            rt > 0,
            re as int == spec_re_after(amts, re0, rt0, i as int),
            rt as int == spec_rt_after(amts, rt0, i as int),
            inputs@.len() == i,
            forall|j: int| 0 <= j < i ==> spec_step_ok(amts, re0, rt0, j),
            forall|j: int| 0 <= j < i ==> inputs@[j] as int == spec_input_at(amts, re0, rt0, j),
            reserves.eth as int == re0,
            reserves.token as int == rt0,
        decreases n - i,
    {
        let a = amounts[i];
        proof {
            assert(amts[i as int] == a as int);
        }
        if a >= rt {
            proof {
                assert(!spec_step_liquid(amts, rt0, i as int));
                assert(!spec_step_ok(amts, re0, rt0, i as int));
            }
            return Err(BuildError::InsufficientLiquidity { wallet: i });
        }
        let with_fee_scaled = match a.checked_mul(997) {
            Some(x) => x,
            None => {
                proof {
                    assert(!spec_step_fits(amts, re0, rt0, i as int));
                    assert(!spec_step_ok(amts, re0, rt0, i as int));
                }
                return Err(BuildError::ArithmeticOverflow { wallet: i });
            },
        };
        let amount_with_fee = with_fee_scaled / 1000;
        proof {
            assert(amount_with_fee as int == spec_amount_with_fee(a as int));
        }
        let numerator = match re.checked_mul(amount_with_fee) {
            Some(x) => x,
            None => {
                proof {
                    assert(!spec_step_fits(amts, re0, rt0, i as int));
                    assert(!spec_step_ok(amts, re0, rt0, i as int));
                }
                return Err(BuildError::ArithmeticOverflow { wallet: i });
            },
        };
        let denominator = match rt.checked_add(amount_with_fee) {
            Some(x) => x,
            None => {
                proof {
                    assert(!spec_step_fits(amts, re0, rt0, i as int));
                    assert(!spec_step_ok(amts, re0, rt0, i as int));
                }
                return Err(BuildError::ArithmeticOverflow { wallet: i });
            },
        };
        let eth_input = numerator / denominator;
        proof {
            assert(eth_input as int == spec_eth_needed(a as int, re as int, rt as int));
        }
        if re.checked_add(eth_input).is_none() {
            proof {
                assert(!spec_step_fits(amts, re0, rt0, i as int));
                assert(!spec_step_ok(amts, re0, rt0, i as int));
            }
            return Err(BuildError::ArithmeticOverflow { wallet: i });
        }
        let paid = ConstantProduct::calculate_eth_needed(a, &mut re, &mut rt);
        inputs.push(paid);
        i = i + 1;
    }
    *reserves = Reserves { eth: re, token: rt };
    Ok(inputs)
}

} // verus!

