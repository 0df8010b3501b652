//! Eligibility checker.
//!
//! Compares every swap wallet's queried balance against the ETH input its
//! swap requires.  A shortfall never stops the scan: all remaining wallets
//! are still examined, so one pass yields the complete funding report, and
//! the caller aborts the run if the report is non-empty.

use crate::errors::Shortfall;
use vstd::prelude::*;

verus! {

/// The shortfall report for the scanned lists: one entry per position
/// whose balance is below its required input, in scan order.
pub open spec fn spec_shortfalls(balances: Seq<u128>, required: Seq<u128>) -> Seq<Shortfall>
    decreases balances.len(),
{
    if balances.len() == 0 {
        Seq::empty()
    } else {
        let n = balances.len() - 1;
        let prefix = spec_shortfalls(balances.take(n as int), required.take(n as int));
        if balances[n as int] < required[n as int] {
            prefix + seq![
                Shortfall {
                    wallet: n as usize,
                    balance: balances[n as int],
                    required: required[n as int],
                },
            ]
        } else {
            prefix
        }
    }
}

/// The report lists exactly the under-funded positions: every entry
/// records a genuine shortfall with the scanned values, every under-funded
/// position appears, and entries come in scan order.
pub proof fn lemma_shortfalls_exact(balances: Seq<u128>, required: Seq<u128>)
    requires
        balances.len() == required.len(),
        balances.len() <= usize::MAX,
    ensures
        forall|k: int|
            #![trigger spec_shortfalls(balances, required)[k]]
            0 <= k < spec_shortfalls(balances, required).len() ==> {
                let s = spec_shortfalls(balances, required)[k];
                &&& 0 <= s.wallet < balances.len()
                &&& s.balance == balances[s.wallet as int]
                &&& s.required == required[s.wallet as int]
                &&& s.balance < s.required
            },
        forall|i: int|
            0 <= i < balances.len() && balances[i] < required[i] ==> exists|k: int|
                #![auto]
                0 <= k < spec_shortfalls(balances, required).len() && spec_shortfalls(
                    balances,
                    required,
                )[k].wallet == i,
        forall|k1: int, k2: int|
            #![trigger spec_shortfalls(balances, required)[k1], spec_shortfalls(balances, required)[k2]]
            0 <= k1 < k2 < spec_shortfalls(balances, required).len() ==> spec_shortfalls(
                balances,
                required,
            )[k1].wallet < spec_shortfalls(balances, required)[k2].wallet,
        spec_shortfalls(balances, required).len() == 0 <==> (forall|i: int|
            0 <= i < balances.len() ==> balances[i] >= required[i]),
    decreases balances.len(),
{
    if balances.len() > 0 {
        let n = balances.len() - 1;
        let bp = balances.take(n as int);
        let rp = required.take(n as int);
        lemma_shortfalls_exact(bp, rp);
        assert forall|i: int|
            0 <= i < balances.len() && balances[i] < required[i] implies exists|k: int|
            #![auto]
            0 <= k < spec_shortfalls(balances, required).len() && spec_shortfalls(
                balances,
                required,
            )[k].wallet == i by {
            if i < n {
                assert(bp[i] == balances[i] && rp[i] == required[i]);
                let k0 = choose|k: int|
                    #![auto]
                    0 <= k < spec_shortfalls(bp, rp).len() && spec_shortfalls(bp, rp)[k].wallet
                        == i;
                assert(spec_shortfalls(balances, required)[k0].wallet == i);
            } else {
                assert(spec_shortfalls(balances, required)[spec_shortfalls(bp, rp).len() as int].wallet
                    == i);
            }
        }
    }
}

/// One pass over the swap wallets: record every position whose balance is
/// below the required input, never stopping early, so the operator gets
/// every shortfall in one report.
pub fn scan_shortfalls(balances: &Vec<u128>, required: &Vec<u128>) -> (r: Vec<Shortfall>)
    requires
        balances@.len() == required@.len(),
    ensures
        r@ == spec_shortfalls(balances@, required@),
{
    let n = balances.len();
    let mut report: Vec<Shortfall> = Vec::new();
    let mut i: usize = 0;
    while i < n
        invariant
            n == balances@.len() == required@.len(),
            0 <= i <= n,
            report@ == spec_shortfalls(balances@.take(i as int), required@.take(i as int)),
        decreases n - i,
    {
        proof {
            assert(balances@.take(i + 1).take(i as int) =~= balances@.take(i as int));
            assert(required@.take(i + 1).take(i as int) =~= required@.take(i as int));
        }
        if balances[i] < required[i] {
            report.push(
                Shortfall { wallet: i, balance: balances[i], required: required[i] },
            );
        }
        proof {
            assert(report@ =~= spec_shortfalls(balances@.take(i + 1), required@.take(i + 1)));
        }
        i = i + 1;
    }
    proof {
        assert(balances@.take(n as int) =~= balances@);
        assert(required@.take(n as int) =~= required@);
    }
    report
}

} // verus!
