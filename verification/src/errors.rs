//! Typed errors for the bundle construction pipeline.
//!
//! Inner components never terminate the process; every abort condition is
//! propagated as a value so the top-level driver decides how to report it.

use vstd::prelude::*;

verus! {

/// One under-funded wallet found by the eligibility scan: the wallet's
/// position in the configured list, the balance it holds and the
/// native-asset input its swap requires.
#[derive(Debug, PartialEq, Eq)]
pub struct Shortfall {
    pub wallet: usize,
    pub balance: u128,
    pub required: u128,
}

/// Why a bundle could not be built.
#[derive(Debug, PartialEq, Eq)]
pub enum BuildError {
    /// The contract owner read from the chain is not the first configured
    /// wallet.
    OwnerMismatch,
    /// The pool would start with a zero native-asset or token reserve.
    EmptyReserves,
    /// The allocation sampling interval is empty: the baseline lower bound
    /// reaches or exceeds the configured maximum.
    EmptySamplingRange,
    /// A planned allocation would drain the token reserve; `wallet` is the
    /// position among the swap wallets at which the shortage appears.
    InsufficientLiquidity { wallet: usize },
    /// A simulated swap at `wallet` would overflow the 128-bit arithmetic.
    ArithmeticOverflow { wallet: usize },
    /// One or more wallets cannot cover their required swap input; every
    /// shortfall found in the scan is listed.
    InsufficientFunds { shortfalls: Vec<Shortfall> },
}

} // verus!
