//! Workspace-wide error codes and storage lifetimes.

use chainverse::shared::{ContractError, MAX_TTL, MIN_TTL};

#[test]
fn shared_error_codes_are_stable() {
    assert_eq!(ContractError::Unauthorized.code(), 1);
    assert_eq!(ContractError::ContractPaused.code(), 4);
    assert_eq!(ContractError::InvalidEscrowState.code(), 15);
    assert!(MIN_TTL < MAX_TTL);
}
