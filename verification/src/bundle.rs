//! Bundle assembler.
//!
//! Builds the ordered transaction set: the open-trading transaction signed
//! by the distinguished first wallet, one swap transaction per remaining
//! wallet in configuration order, and the block-producer incentive payment
//! as the final entry.  Every entry carries the same max-fee-per-gas and
//! each sender's own next nonce.  Addresses are carried as raw byte
//! strings; signing itself is a collaborator's job and happens outside.

use crate::eligibility::{scan_shortfalls, spec_shortfalls, lemma_shortfalls_exact};
use crate::errors::BuildError;
use crate::planner::{plan_allocations, spec_allocation_amount, spec_lower_ppm, spec_supply_fits, PPM};
use crate::swap::{
    amounts_of, simulate_swaps, spec_input_at, spec_re_after, spec_rt_after, spec_sim_failure,
    spec_sim_ok, spec_step_liquid, spec_step_ok, Reserves,
};
use vstd::prelude::*;

verus! {

/// Gas limit sized for the state-changing open-trading call.
pub const GAS_OPEN_TRADING: u64 = 3_000_000;

/// Gas limit for one router swap call.
pub const GAS_SWAP: u64 = 300_000;

/// Gas limit of a plain value transfer, for the incentive payment.
pub const GAS_TRANSFER: u64 = 21_000;

/// Seconds added to the current time for a swap deadline far enough in the
/// future to tolerate realistic inclusion delay.
pub const DEADLINE_SLACK_SECS: u64 = 60;

/// Which role a transaction plays inside the bundle.
#[derive(Clone, Copy, Debug, PartialEq, Eq, Structural)]
pub enum TxKind {
    OpenTrading,
    Swap,
    Incentive,
}

/// A fully specified transaction prior to signing.  Immutable once
/// constructed; a signing identity outside the engine consumes it.
#[derive(Debug, PartialEq, Eq)]
pub struct TxIntent {
    pub kind: TxKind,
    /// Sender address, as raw bytes.
    pub from: Vec<u8>,
    /// Target address: the token contract, the router, or the incentive
    /// recipient.
    pub to: Vec<u8>,
    /// Swap route handed to the router: the wrapped native asset, then
    /// the token.  Empty for the two fixed entries.
    pub path: Vec<Vec<u8>>,
    /// Native asset sent with the call, in wei.
    pub value: u128,
    pub gas_limit: u64,
    /// The uniform max fee per unit of gas.
    pub gas_price: u128,
    /// The sender's own next on-chain nonce.
    pub nonce: u64,
    pub chain_id: u64,
    /// Exact token output requested from the router; zero for the two
    /// fixed entries.
    pub token_amount: u128,
    /// Swap deadline timestamp; zero for the two fixed entries.
    pub deadline: u64,
}

/// An address-capable signing identity with its queried balance and next
/// nonce; enumerated once per run from configuration.
#[derive(Debug, PartialEq, Eq)]
pub struct WalletEntry {
    pub address: Vec<u8>,
    pub balance: u128,
    pub nonce: u64,
}

/// Everything the assembler needs beyond the wallet list, queried or
/// configured upstream.
pub struct BuildParams {
    pub chain_id: u64,
    /// The token contract; also the pool whose balances seed the reserves.
    pub contract_address: Vec<u8>,
    pub router_address: Vec<u8>,
    /// Wrapped native asset: first hop of every swap path.
    pub weth_address: Vec<u8>,
    /// Contract owner read from the chain.
    pub owner: Vec<u8>,
    pub total_supply: u128,
    /// The contract's native-asset balance: the pool's starting ETH reserve.
    pub reserve_eth: u128,
    /// The contract's own token balance before the funding haircut.
    pub reserve_token_raw: u128,
    /// Current base fee per gas of the chain head.
    pub base_fee: u128,
    /// Configured flat priority fee per gas, in wei.
    pub priority_fee: u128,
    /// Direct payment to the block producer, in wei.
    pub miner_tip: u128,
    /// Baseline buyback fraction, parts per million.
    pub baseline_ppm: u64,
    /// Configured ceiling of the buyback fraction, parts per million.
    pub max_ppm: u64,
    /// Swap deadline timestamp.
    pub deadline: u64,
    /// The distinct identity that signs and pays the incentive entry.
    pub bundle_signer: WalletEntry,
}

/// The assembled, strictly ordered transaction set with the values the
/// run's report needs.
pub struct BundlePlan {
    pub txs: Vec<TxIntent>,
    pub max_fee_per_gas: u128,
    /// Pool composition after every swap of the bundle executes.
    pub reserves_after: Reserves,
}

/// A swap deadline: the current time plus a fixed slack.
pub fn deadline_timestamp(now_secs: u64) -> (r: u64)
    requires
        now_secs + DEADLINE_SLACK_SECS <= u64::MAX,
    ensures
        r == now_secs + DEADLINE_SLACK_SECS,
{
    now_secs + DEADLINE_SLACK_SECS
}

/// The fixed incentive destination: the all-zero address.
pub open spec fn spec_zero_address() -> Seq<u8> {
    Seq::new(20, |i: int| 0u8)
}

fn zero_address() -> (r: Vec<u8>)
    ensures
        r@ == spec_zero_address(),
{
    let mut v: Vec<u8> = Vec::new();
    let mut i: usize = 0;
    while i < 20
        invariant
            0 <= i <= 20,
            v@.len() == i,
            forall|j: int| 0 <= j < i ==> v@[j] == 0u8,
        decreases 20 - i,
    {
        v.push(0u8);
        i = i + 1;
    }
    proof {
        assert(v@ =~= spec_zero_address());
    }
    v
}

fn eq_bytes(a: &Vec<u8>, b: &Vec<u8>) -> (r: bool)
    ensures
        r == (a@ == b@),
{
    if a.len() != b.len() {
        proof {
            assert(a@ != b@);
        }
        return false;
    }
    let mut i: usize = 0;
    while i < a.len()
        invariant
            a@.len() == b@.len(),
            0 <= i <= a@.len(),
            forall|j: int| 0 <= j < i ==> a@[j] == b@[j],
        decreases a@.len() - i,
    {
        if a[i] != b[i] {
            return false;
        }
        i = i + 1;
    }
    proof {
        assert(a@ =~= b@);
    }
    true
}

fn copy_bytes(a: &Vec<u8>) -> (r: Vec<u8>)
    ensures
        r@ == a@,
{
    let mut v: Vec<u8> = Vec::new();
    let mut i: usize = 0;
    while i < a.len()
        invariant
            0 <= i <= a@.len(),
            v@ == a@.take(i as int),
        decreases a@.len() - i,
    {
        v.push(a[i]);
        proof {
            assert(v@ =~= a@.take(i + 1));
        }
        i = i + 1;
    }
    proof {
        assert(a@.take(a@.len() as int) =~= a@);
    }
    v
}

/// The token reserve the pool will be funded with: 77% of the contract's
/// token balance, truncating.
pub open spec fn spec_reserve_token(raw: int) -> int {
    raw * 77 / 100
}

/// The contract owner is the distinguished first wallet.
pub open spec fn spec_owner_ok(params: BuildParams, wallets: Seq<WalletEntry>) -> bool {
    params.owner@ == wallets[0].address@
}

/// Both starting reserves are strictly positive.
pub open spec fn spec_reserves_ok(params: BuildParams) -> bool {
    params.reserve_eth > 0 && spec_reserve_token(params.reserve_token_raw as int) > 0
}

/// The balances of the swap wallets, in configuration order.
pub open spec fn spec_swap_balances(wallets: Seq<WalletEntry>) -> Seq<u128> {
    Seq::new((wallets.len() - 1) as nat, |i: int| wallets[i + 1].balance)
}

/// The exact ETH input each swap wallet must send, as machine words.
pub open spec fn spec_required_inputs(amts: Seq<int>, re0: int, rt0: int) -> Seq<u128> {
    Seq::new(amts.len(), |i: int| spec_input_at(amts, re0, rt0, i) as u128)
}

/// Every swap wallet can cover its required input.
pub open spec fn spec_funding_ok(wallets: Seq<WalletEntry>, amts: Seq<int>, re0: int, rt0: int) -> bool {
    forall|i: int|
        0 <= i < amts.len() ==> wallets[i + 1].balance as int >= spec_input_at(amts, re0, rt0, i)
}

/// The open-trading entry: first in the bundle, signed by the owner
/// wallet, a contract call carrying no value.
pub open spec fn spec_open_trading_tx(tx: TxIntent, params: BuildParams, wallets: Seq<WalletEntry>) -> bool {
    &&& tx.kind == TxKind::OpenTrading
    &&& tx.from@ == wallets[0].address@
    &&& tx.to@ == params.contract_address@
    &&& tx.path@.len() == 0
    &&& tx.value == 0
    &&& tx.gas_limit == GAS_OPEN_TRADING
    &&& tx.nonce == wallets[0].nonce
    &&& tx.token_amount == 0
    &&& tx.deadline == 0
}

/// The `i`-th swap entry: sends exactly the required input to the router
/// and requests exactly the planned token output for its wallet.
pub open spec fn spec_swap_tx(
    tx: TxIntent,
    params: BuildParams,
    w: WalletEntry,
    amts: Seq<int>,
    re0: int,
    rt0: int,
    i: int,
) -> bool {
    &&& tx.kind == TxKind::Swap
    &&& tx.from@ == w.address@
    &&& tx.to@ == params.router_address@
    &&& tx.path@.len() == 2
    &&& tx.path@[0]@ == params.weth_address@
    &&& tx.path@[1]@ == params.contract_address@
    &&& tx.value as int == spec_input_at(amts, re0, rt0, i)
    &&& tx.gas_limit == GAS_SWAP
    &&& tx.nonce == w.nonce
    &&& tx.token_amount as int == amts[i]
    &&& tx.deadline == params.deadline
}

/// The incentive entry: last in the bundle, a plain value transfer from
/// the distinct bundle-submission identity to the fixed destination.
pub open spec fn spec_incentive_tx(tx: TxIntent, params: BuildParams) -> bool {
    &&& tx.kind == TxKind::Incentive
    &&& tx.from@ == params.bundle_signer.address@
    &&& tx.to@ == spec_zero_address()
    &&& tx.path@.len() == 0
    &&& tx.value == params.miner_tip
    &&& tx.gas_limit == GAS_TRANSFER
    &&& tx.nonce == params.bundle_signer.nonce
    &&& tx.token_amount == 0
    &&& tx.deadline == 0
}

/// The whole ordered bundle for the given planned amounts: the
/// open-trading transaction first, one swap per remaining wallet in
/// configuration order, the incentive payment last, a uniform gas price
/// and the chain id on every entry, and the post-bundle reserves recorded.
pub open spec fn spec_bundle_ok(
    plan: BundlePlan,
    params: BuildParams,
    wallets: Seq<WalletEntry>,
    amts: Seq<int>,
) -> bool {
    let n = amts.len() as int;
    let re0 = params.reserve_eth as int;
    let rt0 = spec_reserve_token(params.reserve_token_raw as int);
    let fee = params.base_fee + params.priority_fee;
    &&& plan.txs@.len() == n + 2
    &&& plan.max_fee_per_gas == fee
    &&& forall|i: int| 0 <= i < plan.txs@.len() ==> (#[trigger] plan.txs@[i]).gas_price == fee
    &&& forall|i: int|
        0 <= i < plan.txs@.len() ==> (#[trigger] plan.txs@[i]).chain_id == params.chain_id
    &&& spec_open_trading_tx(plan.txs@[0], params, wallets)
    &&& forall|i: int|
        0 <= i < n ==> spec_swap_tx(
            #[trigger] plan.txs@[i + 1],
            params,
            wallets[i + 1],
            amts,
            re0,
            rt0,
            i,
        )
    &&& spec_incentive_tx(plan.txs@[n + 1], params)
    &&& plan.reserves_after.eth as int == spec_re_after(amts, re0, rt0, n)
    &&& plan.reserves_after.token as int == spec_rt_after(amts, rt0, n)
}

/// Assemble the bundle for already-planned token amounts.
///
/// The checks run in the order the engine performs them: the owner gate,
/// the reserve gate, the sequential swap simulation, then the complete
/// eligibility scan; the first gate to fail decides the error.  On success
/// the bundle satisfies `spec_bundle_ok` for exactly the given amounts.
pub fn build_txs_with_amounts(
    params: &BuildParams,
    wallets: &Vec<WalletEntry>,
    amounts: &Vec<u128>,
) -> (r: Result<BundlePlan, BuildError>)
    requires
        wallets@.len() >= 1,
        amounts@.len() == wallets@.len() - 1,
        params.reserve_token_raw as int * 77 <= u128::MAX,
        params.base_fee as int + params.priority_fee as int <= u128::MAX,
    ensures
        ({
            let amts = amounts_of(amounts@);
            let re0 = params.reserve_eth as int;
            let rt0 = spec_reserve_token(params.reserve_token_raw as int);
            &&& (r is Ok <==> spec_owner_ok(*params, wallets@) && spec_reserves_ok(*params)
                && spec_sim_ok(amts, re0, rt0) && spec_funding_ok(wallets@, amts, re0, rt0))
            &&& (!spec_owner_ok(*params, wallets@) ==> r == Err::<BundlePlan, BuildError>(
                BuildError::OwnerMismatch,
            ))
            &&& (spec_owner_ok(*params, wallets@) && !spec_reserves_ok(*params) ==> r == Err::<
                BundlePlan,
                BuildError,
            >(BuildError::EmptyReserves))
            &&& (spec_owner_ok(*params, wallets@) && spec_reserves_ok(*params) && !spec_sim_ok(
                amts,
                re0,
                rt0,
            ) ==> (r matches Err(e) && spec_sim_failure(amts, re0, rt0, e)))
            &&& (spec_owner_ok(*params, wallets@) && spec_reserves_ok(*params) && spec_sim_ok(
                amts,
                re0,
                rt0,
            ) && !spec_funding_ok(wallets@, amts, re0, rt0) ==> (r matches Err(
                BuildError::InsufficientFunds { shortfalls },
            ) && shortfalls@ == spec_shortfalls(
                spec_swap_balances(wallets@),
                spec_required_inputs(amts, re0, rt0),
            ) && shortfalls@.len() > 0))
            &&& (r matches Ok(plan) ==> spec_bundle_ok(plan, *params, wallets@, amts))
        }),
{
    let ghost amts = amounts_of(amounts@);
    let ghost re0 = params.reserve_eth as int;
    let ghost rt0 = spec_reserve_token(params.reserve_token_raw as int);
    if !eq_bytes(&params.owner, &wallets[0].address) {
        return Err(BuildError::OwnerMismatch);
    }
    let reserve_token = params.reserve_token_raw * 77 / 100;
    if params.reserve_eth == 0 || reserve_token == 0 {
        return Err(BuildError::EmptyReserves);
    }
    let max_fee_per_gas = params.base_fee + params.priority_fee;
    let mut reserves = Reserves { eth: params.reserve_eth, token: reserve_token };
    let inputs = match simulate_swaps(amounts, &mut reserves) {
        Ok(v) => v,
        Err(e) => {
            return Err(e);
        },
    };
    let n_swaps = amounts.len();
    let mut balances: Vec<u128> = Vec::new();
    let mut i: usize = 0;
    while i < n_swaps
        invariant
            n_swaps == amounts@.len() == wallets@.len() - 1,
            0 <= i <= n_swaps,
            balances@.len() == i,
            forall|j: int| 0 <= j < i ==> balances@[j] == wallets@[j + 1].balance,
        decreases n_swaps - i,
    {
        balances.push(wallets[i + 1].balance);
        i = i + 1;
    }
    proof {
        assert(balances@ =~= spec_swap_balances(wallets@));
        assert forall|j: int| 0 <= j < n_swaps implies inputs@[j] == spec_required_inputs(
            amts,
            re0,
            rt0,
        )[j] by {}
        assert(inputs@ =~= spec_required_inputs(amts, re0, rt0));
    }
    let report = scan_shortfalls(&balances, &inputs);
    proof {
        lemma_shortfalls_exact(balances@, inputs@);
    }
    if report.len() > 0 {
        proof {
            let k = 0int;
            let s = spec_shortfalls(balances@, inputs@)[k];
            assert(s.balance < s.required);
            assert((wallets@[s.wallet + 1].balance as int) < spec_input_at(
                amts,
                re0,
                rt0,
                s.wallet as int,
            ));
        }
        return Err(BuildError::InsufficientFunds { shortfalls: report });
    }
    proof {
        assert forall|j: int| 0 <= j < amts.len() implies wallets@[j + 1].balance as int
            >= spec_input_at(amts, re0, rt0, j) by {
            assert(balances@[j] == spec_swap_balances(wallets@)[j]);
            assert(balances@[j] >= inputs@[j]);
        }
    }
    let mut txs: Vec<TxIntent> = Vec::new();
    txs.push(
        TxIntent {
            kind: TxKind::OpenTrading,
            from: copy_bytes(&wallets[0].address),
            to: copy_bytes(&params.contract_address),
            path: Vec::new(),
            value: 0,
            gas_limit: GAS_OPEN_TRADING,
            gas_price: max_fee_per_gas,
            nonce: wallets[0].nonce,
            chain_id: params.chain_id,
            token_amount: 0,
            deadline: 0,
        },
    );
    let mut i: usize = 0;
    while i < n_swaps
        invariant
            n_swaps == amounts@.len() == wallets@.len() - 1,
            n_swaps == inputs@.len(),
            amts == amounts_of(amounts@),
            forall|j: int| 0 <= j < n_swaps ==> inputs@[j] as int == spec_input_at(amts, re0, rt0, j),
            0 <= i <= n_swaps,
            txs@.len() == i + 1,
            spec_open_trading_tx(txs@[0], *params, wallets@),
            forall|j: int|
                0 <= j < i ==> spec_swap_tx(
                    #[trigger] txs@[j + 1],
                    *params,
                    wallets@[j + 1],
                    amts,
                    re0,
                    rt0,
                    j,
                ),
            forall|j: int|
                0 <= j < txs@.len() ==> (#[trigger] txs@[j]).gas_price == max_fee_per_gas,
            forall|j: int| 0 <= j < txs@.len() ==> (#[trigger] txs@[j]).chain_id == params.chain_id,
            max_fee_per_gas as int == params.base_fee as int + params.priority_fee as int,
        decreases n_swaps - i,
    {
        proof {
            assert(amts[i as int] == amounts@[i as int] as int);
        }
        let mut path: Vec<Vec<u8>> = Vec::new();
        path.push(copy_bytes(&params.weth_address));
        path.push(copy_bytes(&params.contract_address));
        txs.push(
            TxIntent {
                kind: TxKind::Swap,
                from: copy_bytes(&wallets[i + 1].address),
                to: copy_bytes(&params.router_address),
                path,
                value: inputs[i],
                gas_limit: GAS_SWAP,
                gas_price: max_fee_per_gas,
                nonce: wallets[i + 1].nonce,
                chain_id: params.chain_id,
                token_amount: amounts[i],
                deadline: params.deadline,
            },
        );
        i = i + 1;
    }
    txs.push(
        TxIntent {
            kind: TxKind::Incentive,
            from: copy_bytes(&params.bundle_signer.address),
            to: zero_address(),
            path: Vec::new(),
            value: params.miner_tip,
            gas_limit: GAS_TRANSFER,
            gas_price: max_fee_per_gas,
            nonce: params.bundle_signer.nonce,
            chain_id: params.chain_id,
            token_amount: 0,
            deadline: 0,
        },
    );
    Ok(BundlePlan { txs, max_fee_per_gas, reserves_after: reserves })
}

/// Build the bundle end to end: draw one independent allocation per swap
/// wallet, then assemble for those amounts.
///
/// The gates run in engine order — owner, reserves, sampling range, then
/// everything `build_txs_with_amounts` checks for the drawn amounts — and
/// when several fail at once the earliest gate decides the error, a
/// deliberate choice matching the order in which the values are read.
/// Each gate error comes if and only if its gate is the first to fail,
/// and a bundle is owed whenever the gates pass and no amount vector
/// within the sampling bounds could fail simulation or funding, so the
/// draw cannot decide the outcome.  The drawn amounts can be read back
/// from the bundle's own swap entries, and each lies between the
/// allocation at the interval's two edges.
pub fn build_txs(params: &BuildParams, wallets: &Vec<WalletEntry>) -> (r: Result<
    BundlePlan,
    BuildError,
>)
    requires
        wallets@.len() >= 1,
        params.reserve_token_raw as int * 77 <= u128::MAX,
        params.base_fee as int + params.priority_fee as int <= u128::MAX,
        spec_supply_fits(params.total_supply as int),
        params.baseline_ppm <= PPM,
        params.max_ppm <= PPM,
    ensures
        ({
            let re0 = params.reserve_eth as int;
            let rt0 = spec_reserve_token(params.reserve_token_raw as int);
            let lo_amt = spec_allocation_amount(
                params.total_supply as int,
                spec_lower_ppm(params.baseline_ppm as int),
            );
            let hi_amt = spec_allocation_amount(params.total_supply as int, params.max_ppm as int);
            &&& (r == Err::<BundlePlan, BuildError>(BuildError::OwnerMismatch) <==> !spec_owner_ok(
                *params,
                wallets@,
            ))
            &&& (r == Err::<BundlePlan, BuildError>(BuildError::EmptyReserves) <==> spec_owner_ok(
                *params,
                wallets@,
            ) && !spec_reserves_ok(*params))
            &&& (r == Err::<BundlePlan, BuildError>(BuildError::EmptySamplingRange)
                <==> spec_owner_ok(*params, wallets@) && spec_reserves_ok(*params) && spec_lower_ppm(
                params.baseline_ppm as int,
            ) >= params.max_ppm as int)
            &&& (spec_owner_ok(*params, wallets@) && spec_reserves_ok(*params) && spec_lower_ppm(
                params.baseline_ppm as int,
            ) < params.max_ppm as int && (forall|amts: Seq<int>|
                #![trigger spec_sim_ok(amts, re0, rt0)]
                (amts.len() == wallets@.len() - 1 && (forall|i: int|
                    0 <= i < amts.len() ==> lo_amt <= #[trigger] amts[i] <= hi_amt)) ==> (
                spec_sim_ok(amts, re0, rt0) && spec_funding_ok(wallets@, amts, re0, rt0)))
                ==> r is Ok)
            &&& (r matches Err(e) ==> (e == BuildError::OwnerMismatch || e
                == BuildError::EmptyReserves || e == BuildError::EmptySamplingRange || (exists|
                amts: Seq<int>,
            |
                #![auto]
                amts.len() == wallets@.len() - 1 && (forall|i: int|
                    0 <= i < amts.len() ==> lo_amt <= #[trigger] amts[i] <= hi_amt)
                    && spec_sim_failure(amts, re0, rt0, e)) || e matches
                BuildError::InsufficientFunds { .. }))
            &&& (r matches Err(BuildError::InsufficientFunds { shortfalls }) ==> exists|
                amts: Seq<int>,
            |
                #![auto]
                amts.len() == wallets@.len() - 1 && spec_sim_ok(amts, re0, rt0) && (forall|i: int|
                    0 <= i < amts.len() ==> lo_amt <= #[trigger] amts[i] <= hi_amt) && shortfalls@
                    == spec_shortfalls(
                    spec_swap_balances(wallets@),
                    spec_required_inputs(amts, re0, rt0),
                ) && shortfalls@.len() > 0)
            &&& (r matches Ok(plan) ==> {
                let amts = Seq::new(
                    (wallets@.len() - 1) as nat,
                    |i: int| plan.txs@[i + 1].token_amount as int,
                );
                &&& spec_bundle_ok(plan, *params, wallets@, amts)
                &&& spec_sim_ok(amts, re0, rt0)
                &&& spec_funding_ok(wallets@, amts, re0, rt0)
                &&& forall|i: int| 0 <= i < amts.len() ==> lo_amt <= #[trigger] amts[i] <= hi_amt
            })
        }),
{
    if !eq_bytes(&params.owner, &wallets[0].address) {
        return Err(BuildError::OwnerMismatch);
    }
    let reserve_token = params.reserve_token_raw * 77 / 100;
    if params.reserve_eth == 0 || reserve_token == 0 {
        return Err(BuildError::EmptyReserves);
    }
    let n_swaps = wallets.len() - 1;
    let amounts = match plan_allocations(
        params.total_supply,
        params.baseline_ppm,
        params.max_ppm,
        n_swaps,
    ) {
        Ok(v) => v,
        Err(e) => {
            return Err(e);
        },
    };
    let r = build_txs_with_amounts(params, wallets, &amounts);
    proof {
        let amts = amounts_of(amounts@);
        let re0 = params.reserve_eth as int;
        let rt0 = spec_reserve_token(params.reserve_token_raw as int);
        let lo_amt = spec_allocation_amount(
            params.total_supply as int,
            spec_lower_ppm(params.baseline_ppm as int),
        );
        let hi_amt = spec_allocation_amount(params.total_supply as int, params.max_ppm as int);
        assert forall|i: int| 0 <= i < amts.len() implies lo_amt <= #[trigger] amts[i] <= hi_amt by {
            assert(amts[i] == amounts@[i] as int);
            assert(lo_amt <= amounts@[i] as int <= hi_amt);
        }
        assert(amts.len() == wallets@.len() - 1);
        if !spec_sim_ok(amts, re0, rt0) {
            assert(!(r is Ok));
            let e = r->Err_0;
            assert(spec_sim_failure(amts, re0, rt0, e));
            let k = choose|k: int|
                #![trigger spec_step_ok(amts, re0, rt0, k)]
                0 <= k < amts.len() && (forall|j: int|
                    0 <= j < k ==> spec_step_ok(amts, re0, rt0, j)) && !spec_step_ok(
                    amts,
                    re0,
                    rt0,
                    k,
                ) && e == (if !spec_step_liquid(amts, rt0, k) {
                    BuildError::InsufficientLiquidity { wallet: k as usize }
                } else {
                    BuildError::ArithmeticOverflow { wallet: k as usize }
                });
            assert(e matches BuildError::InsufficientLiquidity { .. } || e matches
                BuildError::ArithmeticOverflow { .. });
        } else if !spec_funding_ok(wallets@, amts, re0, rt0) {
            assert(!(r is Ok));
            let e = r->Err_0;
            assert(e matches BuildError::InsufficientFunds { .. });
            let shortfalls = e->InsufficientFunds_shortfalls;
            assert(shortfalls@ == spec_shortfalls(
                spec_swap_balances(wallets@),
                spec_required_inputs(amts, re0, rt0),
            ) && shortfalls@.len() > 0);
        } else {
            assert(r is Ok);
            let plan = r->Ok_0;
            let read_back = Seq::new(
                (wallets@.len() - 1) as nat,
                |i: int| plan.txs@[i + 1].token_amount as int,
            );
            assert(read_back =~= amts);
        }
    }
    r
}

} // verus!
