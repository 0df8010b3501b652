//! Bundle construction and submission engine for an atomic group of
//! blockchain transactions: a constant-product swap simulator that predicts
//! required input amounts and evolves pool reserves transaction by
//! transaction, per-wallet allocation planning and eligibility checking,
//! assembly of a strictly ordered transaction set with uniform gas pricing,
//! and the simulate-then-submit-with-retry decision logic.
//!
//! Every wei and token quantity is held in a 128-bit word rather than the
//! 256-bit words of on-chain arithmetic.  The swap estimate multiplies a
//! reserve by a fee-adjusted amount, so two wei-scale quantities of an
//! 18-decimal asset can push that product past 128 bits; the simulator
//! then reports a typed arithmetic-overflow error for that wallet instead
//! of computing in wider words, and the contracts state this bound openly
//! (`spec_swap_fits`).

pub mod bundle;
pub mod coordinator;
pub mod eligibility;
pub mod errors;
pub mod planner;
pub mod report;
pub mod swap;
