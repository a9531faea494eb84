//! Verified core of the ChainVerse scholarship and library contracts.
pub mod table;
pub mod math;
pub mod config;
pub mod registry;
pub mod programs;
pub mod migration;
pub mod outbox;
pub mod settlement;
pub mod crypto;
pub mod review_workflow;
pub mod finance;
pub mod reviews;
pub mod milestones;
pub mod token;
pub mod eligibility;
pub mod staking;
pub mod commitments;
pub mod signing;
pub mod webhook_signing;
pub mod webhooks;
pub mod shared;
