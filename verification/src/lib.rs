//! Accounting core of a liquid-staking derivative.
//!
//! Two engines share this crate: the bonding/unbonding batch engine, which
//! tracks the exchange rate between the underlying asset and the derivative
//! token, and the reward index ledger, which distributes accrued yield to
//! derivative-token holders in proportion to their holdings over time.
//!
//! All state lives in explicit store values that the host passes into every
//! operation; every observation of the outside world (delegations, balances,
//! total issued supply, the clock) arrives as a plain argument. Each
//! operation either commits its whole state change and returns the outbound
//! requests it wants delivered, or fails and leaves the store untouched.

pub mod bytes;
pub mod error;
pub mod fixed;
pub mod holders;
pub mod hub;
pub mod msgs;
pub mod reward;
pub mod unbond;
pub mod waitlist;
