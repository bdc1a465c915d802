//! Outbound requests to collaborator contracts and the host chain.
//!
//! Every operation returns the ordered list of requests it wants delivered;
//! the host executes them after the state change is recorded, as part of the
//! same atomic unit, and rolls the whole unit back if any of them fails.

use vstd::prelude::*;

verus! {

/// One coin: a denomination and an integer amount of its base unit.
#[derive(Clone, Debug, PartialEq, Eq)]
pub struct Coin {
    pub denom: Vec<u8>,
    pub amount: u128,
}

/// A request this core emits for the host or a collaborator to carry out.
#[derive(Clone, Debug, PartialEq, Eq)]
pub enum OutMsg {
    /// Transfer `amount` of `denom` from the contract to `recipient`.
    Send { recipient: Vec<u8>, denom: Vec<u8>, amount: u128 },
    /// Ask a swap venue to convert `amount` of `offer_denom` into
    /// `ask_denom`; which venue routes it is the collaborator's policy.
    Swap { offer_denom: Vec<u8>, ask_denom: Vec<u8>, amount: u128 },
    /// Delegate `amount` of the underlying asset, distributed across
    /// validators by the validator registry's policy.
    Delegate { amount: u128 },
    /// Undelegate `amount` of the underlying asset, distributed across
    /// validators by the validator registry's policy.
    Undelegate { amount: u128 },
    /// Move a delegation of `amount` of `denom` between two validators.
    Redelegate { src_validator: Vec<u8>, dst_validator: Vec<u8>, denom: Vec<u8>, amount: u128 },
    /// Withdraw the pending staking rewards earned with one validator.
    WithdrawReward { validator: Vec<u8> },
    /// Withdraw the pending staking rewards from every current delegation.
    WithdrawAllRewards,
    /// Ask the derivative-token contract to mint `amount` to `recipient`.
    MintDerivative { recipient: Vec<u8>, amount: u128 },
    /// Ask the derivative-token contract to burn `amount` the hub holds.
    BurnDerivative { amount: u128 },
    /// Ask the reward ledger to convert its holdings to the reward
    /// denomination.
    SwapToRewardDenom,
    /// Ask the reward ledger to fold newly arrived rewards into its global
    /// index.
    UpdateRewardGlobalIndex,
}

} // verus!
