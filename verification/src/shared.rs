//! Workspace-wide error codes and storage lifetimes shared by the
//! contracts. A contract reuses these codes where the meaning matches, so
//! integrators can handle them the same way everywhere.
use vstd::prelude::*;
use crate::table::Bytes32;

verus! {

/// Minimum lifetime, in ledgers, of a persistent entry (about a day).
pub const MIN_TTL: u32 = 17_280;

/// Maximum lifetime, in ledgers, of a persistent entry (about thirty days).
pub const MAX_TTL: u32 = 518_400;

/// A course-completion certificate held by a wallet.
#[derive(Copy, Clone, Debug, PartialEq, Eq)]
pub struct Certificate {
    pub wallet: Bytes32,
    pub course_id: u64,
    pub issued_at: u64,
}

/// Error variants shared across the contracts.
#[derive(Copy, Clone, Debug, PartialEq, Eq, Structural)]
pub enum ContractError {
    /// Access control: the caller may not do this.
    Unauthorized,
    /// Lifecycle: already initialized.
    AlreadyInitialized,
    /// Lifecycle: not initialized yet.
    NotInitialized,
    /// Operational state: the contract is paused.
    ContractPaused,
    /// Value validation: a bad amount.
    InvalidAmount,
    /// Value validation: a bad payment.
    InvalidPayment,
    /// Asset: the balance is too low.
    InsufficientBalance,
    /// Asset: the allowance is too low.
    InsufficientAllowance,
    /// Certificate: it exists already.
    CertificateExists,
    /// Certificate: no such certificate.
    CertificateNotFound,
    /// Certificate: soulbound certificates do not move.
    SoulboundTransferNotAllowed,
    /// Reward: already rewarded.
    AlreadyRewarded,
    /// Reward: already purchased.
    AlreadyPurchased,
    /// Escrow: no such escrow.
    EscrowNotFound,
    /// Escrow: not in a state that allows the call.
    InvalidEscrowState,
}

impl ContractError {
    /// The stable numeric code a client sees.
    pub fn code(self) -> (c: u32)
        ensures
            c == match self {
                ContractError::Unauthorized => 1u32,
                ContractError::AlreadyInitialized => 2u32,
                ContractError::NotInitialized => 3u32,
                ContractError::ContractPaused => 4u32,
                ContractError::InvalidAmount => 5u32,
                ContractError::InvalidPayment => 6u32,
                ContractError::InsufficientBalance => 7u32,
                ContractError::InsufficientAllowance => 8u32,
                ContractError::CertificateExists => 9u32,
                ContractError::CertificateNotFound => 10u32,
                ContractError::SoulboundTransferNotAllowed => 11u32,
                ContractError::AlreadyRewarded => 12u32,
                ContractError::AlreadyPurchased => 13u32,
                ContractError::EscrowNotFound => 14u32,
                ContractError::InvalidEscrowState => 15u32,
            },
    {
        match self {
            ContractError::Unauthorized => 1,
            ContractError::AlreadyInitialized => 2,
            ContractError::NotInitialized => 3,
            ContractError::ContractPaused => 4,
            ContractError::InvalidAmount => 5,
            ContractError::InvalidPayment => 6,
            ContractError::InsufficientBalance => 7,
            ContractError::InsufficientAllowance => 8,
            ContractError::CertificateExists => 9,
            ContractError::CertificateNotFound => 10,
            ContractError::SoulboundTransferNotAllowed => 11,
            ContractError::AlreadyRewarded => 12,
            ContractError::AlreadyPurchased => 13,
            ContractError::EscrowNotFound => 14,
            ContractError::InvalidEscrowState => 15,
        }
    }
}

} // verus!
