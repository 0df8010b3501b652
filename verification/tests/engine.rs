use gravity_bundler::bundle::{
    build_txs, build_txs_with_amounts, deadline_timestamp, BuildParams, BundlePlan, TxKind,
    WalletEntry, GAS_OPEN_TRADING, GAS_SWAP, GAS_TRANSFER,
};
use gravity_bundler::coordinator::{
    execute, resolve_submissions, retry_targets, simulation_target, step, validate_simulation,
    BundlePhase, CoordEvent, RunOutcome,
};
use gravity_bundler::eligibility::scan_shortfalls;
use gravity_bundler::errors::BuildError;
use gravity_bundler::planner::{allocation_amount, plan_allocations};
use gravity_bundler::report::parse_insufficient_funds_message;
use gravity_bundler::swap::{simulate_swaps, ConstantProduct, Reserves};

fn addr(tag: u8) -> Vec<u8> {
    vec![tag; 20]
}

fn params_for(wallets: &[WalletEntry]) -> BuildParams {
    BuildParams {
        chain_id: 1,
        contract_address: addr(0xC0),
        router_address: addr(0xD0),
        weth_address: addr(0xE0),
        owner: wallets[0].address.clone(),
        total_supply: 1_000_000_000,
        reserve_eth: 1_000_000,
        reserve_token_raw: 1_298_701,
        base_fee: 50,
        priority_fee: 7,
        miner_tip: 1_000,
        baseline_ppm: 200_000,
        max_ppm: 205_000,
        deadline: 777_000,
        bundle_signer: WalletEntry { address: addr(0xB5), balance: 10_000, nonce: 3 },
    }
}

#[test]
fn swap_estimate_regression() {
    // reserves (1000 ETH units, 100000 tokens), 1000 tokens out, fee 997/1000:
    // amount_with_fee = 997, input = 1000*997/100997 = 9, truncating.
    let mut reserve_eth: u128 = 1000;
    let mut reserve_token: u128 = 100_000;
    let eth = ConstantProduct::calculate_eth_needed(1000, &mut reserve_eth, &mut reserve_token);
    assert_eq!(eth, 9);
    assert_eq!(reserve_eth, 1009);
    assert_eq!(reserve_token, 99_000);
}

#[test]
fn swap_estimate_monotone_in_output() {
    let mut re1: u128 = 1_000_000;
    let mut rt1: u128 = 1_000_000;
    let small = ConstantProduct::calculate_eth_needed(100_000, &mut re1, &mut rt1);
    let mut re2: u128 = 1_000_000;
    let mut rt2: u128 = 1_000_000;
    let large = ConstantProduct::calculate_eth_needed(200_000, &mut re2, &mut rt2);
    assert!(small <= large);
    assert!(small > 0);
}

#[test]
fn simulation_is_order_dependent() {
    let start = Reserves { eth: 1_000_000, token: 1_000_000 };
    let mut fwd = start;
    let fwd_inputs = simulate_swaps(&vec![100_000, 200_000], &mut fwd).unwrap();
    let mut rev = start;
    let rev_inputs = simulate_swaps(&vec![200_000, 100_000], &mut rev).unwrap();
    // Per-wallet required inputs differ once the order changes.
    assert_ne!(fwd_inputs[0], rev_inputs[1]);
    assert_ne!(fwd_inputs[1], rev_inputs[0]);
}

#[test]
fn simulation_updates_reserves_sequentially() {
    let mut reserves = Reserves { eth: 1_000_000, token: 1_000_000 };
    let inputs = simulate_swaps(&vec![100_000, 100_000], &mut reserves).unwrap();
    // The second wallet pays against the reserves the first one left behind.
    assert!(inputs[1] > inputs[0]);
    assert_eq!(reserves.token, 800_000);
    assert_eq!(reserves.eth, 1_000_000 + inputs[0] + inputs[1]);
}

#[test]
fn simulation_rejects_draining_the_pool() {
    let start = Reserves { eth: 1_000, token: 500 };
    let mut reserves = start;
    let r = simulate_swaps(&vec![100, 400], &mut reserves);
    assert_eq!(r, Err(BuildError::InsufficientLiquidity { wallet: 1 }));
    // A failed simulation leaves the reserves untouched.
    assert_eq!(reserves, start);
}

#[test]
fn simulation_rejects_overflowing_arithmetic() {
    let start = Reserves { eth: 10, token: u128::MAX };
    let mut reserves = start;
    // the fee multiplication alone leaves 128 bits
    let r = simulate_swaps(&vec![u128::MAX / 900], &mut reserves);
    assert_eq!(r, Err(BuildError::ArithmeticOverflow { wallet: 0 }));
    assert_eq!(reserves, start);
}

#[test]
fn allocation_amount_is_exact() {
    assert_eq!(allocation_amount(1_000_000_000, 196_000), 196_000_000);
    assert_eq!(allocation_amount(1_000_000_000, 205_000), 205_000_000);
    assert_eq!(allocation_amount(999, 500_000), 499);
}

#[test]
fn planned_allocations_fall_in_bounds() {
    let v = plan_allocations(1_000_000_000, 200_000, 205_000, 8).unwrap();
    assert_eq!(v.len(), 8);
    for amount in v {
        // lower edge: baseline less 2% = 196000 ppm of the supply
        assert!(amount >= 196_000_000);
        assert!(amount <= 205_000_000);
    }
}

#[test]
fn empty_sampling_range_fails() {
    // baseline*0.98 = 196000 >= max 150000: must fail, never loop or clamp.
    let r = plan_allocations(1_000_000_000, 200_000, 150_000, 3);
    assert_eq!(r, Err(BuildError::EmptySamplingRange));
    // The boundary case, lower edge equal to the maximum, is empty too.
    let r = plan_allocations(1_000_000_000, 200_000, 196_000, 3);
    assert_eq!(r, Err(BuildError::EmptySamplingRange));
}

#[test]
fn eligibility_scan_reports_every_shortfall() {
    let report = scan_shortfalls(&vec![10, 3, 8], &vec![5, 5, 5]);
    assert_eq!(report.len(), 1);
    assert_eq!(report[0].wallet, 1);
    assert_eq!(report[0].balance, 3);
    assert_eq!(report[0].required, 5);
    let report = scan_shortfalls(&vec![1, 9, 2], &vec![5, 5, 5]);
    assert_eq!(report.len(), 2);
    assert_eq!(report[0].wallet, 0);
    assert_eq!(report[1].wallet, 2);
}

#[test]
fn underfunded_wallet_aborts_with_no_bundle() {
    let wallets = vec![
        WalletEntry { address: addr(0x01), balance: 0, nonce: 0 },
        WalletEntry { address: addr(0x02), balance: 1_000_000, nonce: 4 },
        WalletEntry { address: addr(0x03), balance: 3, nonce: 5 },
        WalletEntry { address: addr(0x04), balance: 1_000_000, nonce: 6 },
    ];
    let params = params_for(&wallets);
    let r = build_txs_with_amounts(&params, &wallets, &vec![100_000, 100_000, 100_000]);
    match r {
        Err(BuildError::InsufficientFunds { shortfalls }) => {
            assert_eq!(shortfalls.len(), 1);
            assert_eq!(shortfalls[0].wallet, 1);
            assert_eq!(shortfalls[0].balance, 3);
        }
        other => panic!("expected a funding abort, got {:?}", other.map(|p| p.txs.len())),
    }
}

#[test]
fn bundle_is_strictly_ordered() {
    let wallets = vec![
        WalletEntry { address: addr(0x01), balance: 0, nonce: 7 },
        WalletEntry { address: addr(0x02), balance: 1_000_000, nonce: 4 },
        WalletEntry { address: addr(0x03), balance: 1_000_000, nonce: 9 },
    ];
    let params = params_for(&wallets);
    let plan = build_txs_with_amounts(&params, &wallets, &vec![100_000, 150_000]).unwrap();
    assert_eq!(plan.txs.len(), 4);
    assert_eq!(plan.txs[0].kind, TxKind::OpenTrading);
    assert_eq!(plan.txs[0].from, wallets[0].address);
    assert_eq!(plan.txs[0].nonce, 7);
    assert_eq!(plan.txs[0].gas_limit, GAS_OPEN_TRADING);
    assert_eq!(plan.txs[1].kind, TxKind::Swap);
    assert_eq!(plan.txs[1].token_amount, 100_000);
    assert_eq!(plan.txs[1].gas_limit, GAS_SWAP);
    assert_eq!(plan.txs[1].deadline, 777_000);
    // the swap route runs from the wrapped native asset to the token
    assert_eq!(plan.txs[1].path, vec![addr(0xE0), addr(0xC0)]);
    assert!(plan.txs[0].path.is_empty());
    assert!(plan.txs[3].path.is_empty());
    assert_eq!(plan.txs[2].kind, TxKind::Swap);
    assert_eq!(plan.txs[2].from, wallets[2].address);
    assert_eq!(plan.txs[3].kind, TxKind::Incentive);
    assert_eq!(plan.txs[3].to, vec![0u8; 20]);
    assert_eq!(plan.txs[3].value, 1_000);
    assert_eq!(plan.txs[3].gas_limit, GAS_TRANSFER);
    // A single uniform gas price on every entry.
    assert_eq!(plan.max_fee_per_gas, 57);
    for tx in &plan.txs {
        assert_eq!(tx.gas_price, 57);
        assert_eq!(tx.chain_id, 1);
    }
    // The swap sends exactly the simulated required input.
    let mut reserves = Reserves { eth: 1_000_000, token: 1_298_701 * 77 / 100 };
    let inputs = simulate_swaps(&vec![100_000, 150_000], &mut reserves).unwrap();
    assert_eq!(plan.txs[1].value, inputs[0]);
    assert_eq!(plan.txs[2].value, inputs[1]);
    assert_eq!(plan.reserves_after, reserves);
}

#[test]
fn bundle_with_no_swap_wallets_keeps_the_frame() {
    let wallets = vec![WalletEntry { address: addr(0x01), balance: 0, nonce: 0 }];
    let params = params_for(&wallets);
    let plan = build_txs_with_amounts(&params, &wallets, &vec![]).unwrap();
    assert_eq!(plan.txs.len(), 2);
    assert_eq!(plan.txs[0].kind, TxKind::OpenTrading);
    assert_eq!(plan.txs[1].kind, TxKind::Incentive);
}

#[test]
fn owner_mismatch_is_checked_first() {
    let wallets = vec![WalletEntry { address: addr(0x01), balance: 0, nonce: 0 }];
    let mut params = params_for(&wallets);
    params.owner = addr(0x99);
    params.reserve_eth = 0;
    let r = build_txs_with_amounts(&params, &wallets, &vec![]);
    assert_eq!(r.err(), Some(BuildError::OwnerMismatch));
}

#[test]
fn empty_reserves_are_rejected() {
    let wallets = vec![WalletEntry { address: addr(0x01), balance: 0, nonce: 0 }];
    let mut params = params_for(&wallets);
    params.reserve_eth = 0;
    let r = build_txs_with_amounts(&params, &wallets, &vec![]);
    assert_eq!(r.err(), Some(BuildError::EmptyReserves));
    let mut params = params_for(&wallets);
    // one token of raw balance: the 77% haircut truncates it to zero
    params.reserve_token_raw = 1;
    let r = build_txs_with_amounts(&params, &wallets, &vec![]);
    assert_eq!(r.err(), Some(BuildError::EmptyReserves));
}

#[test]
fn randomized_build_keeps_every_gate() {
    let wallets = vec![
        WalletEntry {
            address: addr(0x01),
            balance: 0,
            nonce: 0,
        },
        WalletEntry { address: addr(0x02), balance: u128::MAX, nonce: 1 },
    ];
    let mut params = params_for(&wallets);
    params.total_supply = 1_000_000;
    let plan: BundlePlan = build_txs(&params, &wallets).unwrap();
    assert_eq!(plan.txs.len(), 3);
    assert_eq!(plan.txs[0].kind, TxKind::OpenTrading);
    assert_eq!(plan.txs[1].kind, TxKind::Swap);
    assert_eq!(plan.txs[2].kind, TxKind::Incentive);
    let amount = plan.txs[1].token_amount;
    assert!(amount >= 1_000_000 * 196_000 / 1_000_000);
    assert!(amount <= 1_000_000 * 205_000 / 1_000_000);
}

#[test]
fn deadline_is_now_plus_slack() {
    assert_eq!(deadline_timestamp(1_000), 1_060);
}

#[test]
fn simulation_validation_fails_fast() {
    assert!(validate_simulation(&vec![]));
    assert!(validate_simulation(&vec![false, false]));
    assert!(!validate_simulation(&vec![false, true, false]));
}

#[test]
fn coordinator_phases_follow_the_protocol() {
    let p = step(BundlePhase::Built, &CoordEvent::SimulationCompleted { tx_failed: vec![false] });
    assert_eq!(p, BundlePhase::Simulated);
    let p = step(BundlePhase::Built, &CoordEvent::SimulationCompleted { tx_failed: vec![true] });
    assert_eq!(p, BundlePhase::Failed);
    let p = step(BundlePhase::Built, &CoordEvent::SimulationTransportFailed);
    assert_eq!(p, BundlePhase::Failed);
    let p = step(BundlePhase::Simulated, &CoordEvent::OperatorDeclined);
    assert_eq!(p, BundlePhase::Failed);
    let p = step(BundlePhase::Simulated, &CoordEvent::OperatorConfirmed);
    assert_eq!(p, BundlePhase::Submitted);
    let p = step(
        BundlePhase::Submitted,
        &CoordEvent::SubmissionsResolved { first_mined: Some(42) },
    );
    assert_eq!(p, BundlePhase::Mined);
    let p = step(BundlePhase::Submitted, &CoordEvent::SubmissionsResolved { first_mined: None });
    assert_eq!(p, BundlePhase::Expired);
}

#[test]
fn full_run_decisions_compose() {
    // blocks 1 and 2 reject, block 3 confirms: the run ends MINED with
    // block 3's identifier.
    let r = execute(false, &vec![false, false], true, &vec![None, None, Some(3)]);
    assert_eq!(r, (BundlePhase::Mined, Some(3)));
    let r = execute(false, &vec![false], true, &vec![None]);
    assert_eq!(r, (BundlePhase::Expired, None));
    let r = execute(false, &vec![false, true], true, &vec![Some(1)]);
    assert_eq!(r, (BundlePhase::Failed, None));
    let r = execute(true, &vec![], true, &vec![Some(1)]);
    assert_eq!(r, (BundlePhase::Failed, None));
    let r = execute(false, &vec![false], false, &vec![Some(1)]);
    assert_eq!(r, (BundlePhase::Failed, None));
}

#[test]
fn dry_run_targets_the_next_block() {
    let t = simulation_target(19_000_000);
    assert_eq!(t.target_block, 19_000_001);
    assert_eq!(t.sim_block, 19_000_000);
    assert_eq!(t.sim_timestamp, 0);
}

#[test]
fn retry_targets_are_consecutive() {
    let targets = retry_targets(100, 3);
    assert_eq!(targets, vec![101, 102, 103]);
    assert_eq!(retry_targets(100, 0), Vec::<u64>::new());
}

#[test]
fn first_confirmation_wins() {
    // blocks 1 and 2 reject, block 3 confirms: the run is mined with
    // block 3's identifier and the rest is ignored.
    let r = resolve_submissions(&vec![None, None, Some(3_003)]);
    assert_eq!(r, RunOutcome::Mined(3_003));
    let r = resolve_submissions(&vec![Some(7), Some(8)]);
    assert_eq!(r, RunOutcome::Mined(7));
    let r = resolve_submissions(&vec![None, None, None]);
    assert_eq!(r, RunOutcome::Expired);
    let r = resolve_submissions(&vec![]);
    assert_eq!(r, RunOutcome::Expired);
}

#[test]
fn insufficient_funds_message_is_parsed() {
    let msg = "rpc error: insufficient funds for gas * price + value: \
               address 0xAb5801a7D398351b8bE11C439e05C5B3259aeC9B have 100 want 250; failed";
    let report = parse_insufficient_funds_message(msg).unwrap();
    assert_eq!(
        report,
        "Insufficient Funds Error: Wallet 0xAb5801a7D398351b8bE11C439e05C5B3259aeC9B \
         needs an additional 0.000000000000000150 ETH to cover the transaction costs."
    );
}

#[test]
fn whole_eth_shortfalls_are_printed_with_decimals() {
    let msg = "insufficient funds for gas: address 0x01 have 500000000000000000 \
               want 2500000000000000000; rejected";
    let report = parse_insufficient_funds_message(msg).unwrap();
    assert_eq!(
        report,
        "Insufficient Funds Error: Wallet 0x01 needs an additional \
         2.000000000000000000 ETH to cover the transaction costs."
    );
}

#[test]
fn garbled_report_still_names_the_shape() {
    // the marker alone: no address, no amounts — empty wallet, zero ETH
    let report = parse_insufficient_funds_message("insufficient funds for gas").unwrap();
    assert_eq!(
        report,
        "Insufficient Funds Error: Wallet  needs an additional \
         0.000000000000000000 ETH to cover the transaction costs."
    );
}

#[test]
fn other_messages_are_not_reports() {
    assert_eq!(parse_insufficient_funds_message("nonce too low"), None);
    assert_eq!(parse_insufficient_funds_message(""), None);
}
