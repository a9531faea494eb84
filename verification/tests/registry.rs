//! Module directory and role registry scenarios.

use chainverse::registry::{ContractError, Role, ScholarshipRegistryContract};

const ALL_ERRORS: [ContractError; 5] = [
    ContractError::NotInitialized,
    ContractError::AlreadyInitialized,
    ContractError::NotAdmin,
    ContractError::ModuleNotFound,
    ContractError::Unauthorized,
];

fn setup() -> (ScholarshipRegistryContract, [u8; 32]) {
    let mut c = ScholarshipRegistryContract::new();
    let admin = [1u8; 32];
    c.initialize(admin).unwrap();
    (c, admin)
}

#[test]
fn error_codes_are_stable() {
    let codes: Vec<u32> = ALL_ERRORS.iter().map(|e| e.code()).collect();
    assert_eq!(codes, vec![1, 2, 3, 4, 5]);
}

#[test]
fn an_uninitialized_registry_refuses_admin_writes() {
    let mut c = ScholarshipRegistryContract::new();
    assert_eq!(
        c.register_module([1u8; 32], [2u8; 32], [3u8; 32]),
        Err(ContractError::NotInitialized)
    );
}

#[test]
fn initialize_is_refused_the_second_time() {
    let (mut c, _) = setup();
    assert_eq!(c.initialize([9u8; 32]), Err(ContractError::AlreadyInitialized));
}

#[test]
fn a_module_resolves_to_its_latest_registration() {
    let (mut c, admin) = setup();
    let name = [7u8; 32];
    assert_eq!(c.get_module(name), Err(ContractError::ModuleNotFound));
    assert!(!c.is_module_registered(name));
    c.register_module(admin, name, [3u8; 32]).unwrap();
    c.register_module(admin, name, [4u8; 32]).unwrap();
    assert_eq!(c.get_module(name), Ok([4u8; 32]));
    assert!(c.is_module_registered(name));
    assert_eq!(
        c.register_module([2u8; 32], name, [5u8; 32]),
        Err(ContractError::NotAdmin)
    );
    assert_eq!(c.get_module(name), Ok([4u8; 32]));
}

#[test]
fn a_revoked_role_is_lost_immediately() {
    let (mut c, admin) = setup();
    let account = [5u8; 32];
    assert_eq!(c.require_role(account, Role::Reviewer), Err(ContractError::Unauthorized));
    c.grant_role(admin, account, Role::Reviewer).unwrap();
    assert!(c.has_role(account, Role::Reviewer));
    assert!(!c.has_role(account, Role::Sponsor));
    assert_eq!(c.require_role(account, Role::Reviewer), Ok(()));
    c.revoke_role(admin, account, Role::Reviewer).unwrap();
    assert!(!c.has_role(account, Role::Reviewer));
    assert_eq!(c.require_role(account, Role::Reviewer), Err(ContractError::Unauthorized));
    assert_eq!(c.version(), 1);
}

fn name(s: &str) -> [u8; 32] {
    let mut out = [0u8; 32];
    out[..s.len()].copy_from_slice(s.as_bytes());
    out
}

const ATTACKER: [u8; 32] = [0xEE; 32];

#[test]
fn test_register_and_resolve_module() {
    let (mut c, admin) = setup();
    let applications_addr = [0xA1; 32];
    c.register_module(admin, name("applications"), applications_addr).unwrap();
    assert!(c.is_module_registered(name("applications")));
    assert_eq!(c.get_module(name("applications")), Ok(applications_addr));
}

#[test]
fn test_unregistered_module_lookup_fails() {
    let (c, _admin) = setup();
    assert!(!c.is_module_registered(name("unknown")));
    assert_eq!(c.get_module(name("unknown")), Err(ContractError::ModuleNotFound));
}

#[test]
fn test_re_registering_module_updates_address() {
    let (mut c, admin) = setup();
    let old_addr = [0xA1; 32];
    let new_addr = [0xA2; 32];
    c.register_module(admin, name("core"), old_addr).unwrap();
    c.register_module(admin, name("core"), new_addr).unwrap();
    assert_eq!(c.get_module(name("core")), Ok(new_addr));
}

#[test]
fn test_non_admin_cannot_register_module() {
    let (mut c, _admin) = setup();
    assert_eq!(c.register_module(ATTACKER, name("core"), [0xA1; 32]), Err(ContractError::NotAdmin));
}

#[test]
fn test_grant_and_check_role() {
    let (mut c, admin) = setup();
    let reviewer = [0xB1; 32];
    assert!(!c.has_role(reviewer, Role::Reviewer));
    c.grant_role(admin, reviewer, Role::Reviewer).unwrap();
    assert!(c.has_role(reviewer, Role::Reviewer));
}

#[test]
fn test_role_grant_is_specific_to_the_role() {
    let (mut c, admin) = setup();
    let account = [0xB2; 32];
    c.grant_role(admin, account, Role::Finance).unwrap();
    assert!(c.has_role(account, Role::Finance));
    assert!(!c.has_role(account, Role::Reviewer));
    assert!(!c.has_role(account, Role::Administrator));
}

#[test]
fn test_revoke_role_removes_access_immediately() {
    let (mut c, admin) = setup();
    let account = [0xB3; 32];
    c.grant_role(admin, account, Role::Sponsor).unwrap();
    assert!(c.has_role(account, Role::Sponsor));
    c.revoke_role(admin, account, Role::Sponsor).unwrap();
    assert!(!c.has_role(account, Role::Sponsor));
}

#[test]
fn test_non_admin_cannot_grant_role() {
    let (mut c, _admin) = setup();
    assert_eq!(c.grant_role(ATTACKER, [0xB4; 32], Role::Administrator), Err(ContractError::NotAdmin));
}

#[test]
fn test_require_role_ok_when_granted() {
    let (mut c, admin) = setup();
    let account = [0xB5; 32];
    c.grant_role(admin, account, Role::Student).unwrap();
    assert!(c.require_role(account, Role::Student).is_ok());
}

#[test]
fn test_require_role_consistent_unauthorized_error() {
    let (c, _admin) = setup();
    assert_eq!(c.require_role([0xB6; 32], Role::Finance), Err(ContractError::Unauthorized));
}

#[test]
fn test_multiple_roles_per_account() {
    let (mut c, admin) = setup();
    let account = [0xB7; 32];
    c.grant_role(admin, account, Role::Reviewer).unwrap();
    c.grant_role(admin, account, Role::Finance).unwrap();
    assert!(c.has_role(account, Role::Reviewer));
    assert!(c.has_role(account, Role::Finance));
}

#[test]
fn test_reads_before_initialize_are_refused() {
    let mut c = ScholarshipRegistryContract::new();
    assert_eq!(c.register_module([0xC1; 32], name("applications"), [0xC2; 32]), Err(ContractError::NotInitialized));
    assert_eq!(c.grant_role([0xC1; 32], [0xC3; 32], Role::Administrator), Err(ContractError::NotInitialized));
    assert_eq!(c.get_module(name("applications")), Err(ContractError::ModuleNotFound));
    assert!(!c.is_module_registered(name("applications")));
}

#[test]
fn test_a_missing_module_is_distinct_from_an_uninitialized_registry() {
    let (mut c, admin) = setup();
    c.register_module(admin, name("applications"), [0xA1; 32]).unwrap();
    assert_eq!(c.get_module(name("not_registered")), Err(ContractError::ModuleNotFound));
    assert!(!c.is_module_registered(name("not_registered")));
}

#[test]
fn registry_test_initialize_is_not_repeatable() {
    let (mut c, admin) = setup();
    assert_eq!(c.initialize(admin), Err(ContractError::AlreadyInitialized));
}

#[test]
fn test_initialize_cannot_hand_over_administration() {
    let (mut c, admin) = setup();
    let successor = [0xD1; 32];
    assert_eq!(c.initialize(successor), Err(ContractError::AlreadyInitialized));
    let grantee = [0xD2; 32];
    assert!(c.grant_role(successor, grantee, Role::Administrator).is_err());
    assert!(c.grant_role(admin, grantee, Role::Administrator).is_ok());
}
