//! Finance scenarios: deposits, funding rounds, program ledgers,
//! reconciliation and receipts.

use chainverse::finance::{
    ContractError, DepositType, DisbursementIntent, IntentStatus, LedgerEntryType, ProgramStatus,
    ReconciliationStatus, ScholarshipFinanceContract, CONTRACT_VERSION,
};
use soroban_sdk::Env;

const CONTRACT: [u8; 32] = [0xC0; 32];
const ADMIN: [u8; 32] = [0xAD; 32];
const SPONSOR: [u8; 32] = [0x5B; 32];
const NOW: u64 = 0;

fn program_id() -> [u8; 32] {
    [2u8; 32]
}

fn asset() -> [u8; 32] {
    [4u8; 32]
}

fn setup() -> (Env, ScholarshipFinanceContract) {
    let env = Env::default();
    let mut c = ScholarshipFinanceContract::new(CONTRACT);
    c.initialize(ADMIN, [1u8; 32]).unwrap();
    (env, c)
}

fn deposit(env: &Env, c: &mut ScholarshipFinanceContract, amount: i128) {
    c.record_deposit(
        env,
        SPONSOR,
        Some(program_id()),
        Some(ProgramStatus::Published),
        asset(),
        amount,
        [5u8; 32],
        None,
        NOW,
    )
    .unwrap();
}

#[test]
fn finance_test_initialize() {
    let mut c = ScholarshipFinanceContract::new(CONTRACT);
    assert!(c.initialize(ADMIN, [1u8; 32]).is_ok());
    assert_eq!(c.initialize(ADMIN, [1u8; 32]), Err(ContractError::AlreadyInitialized));
}

#[test]
fn test_record_deposit_unrestricted() {
    let (env, mut c) = setup();
    let d = c.record_deposit(&env, SPONSOR, None, None, asset(), 1000, [5u8; 32], None, NOW).unwrap();
    assert_eq!(d.amount, 1000);
    assert_eq!(d.asset, asset());
    assert!(d.program_id.is_none());
    assert_eq!(d.deposit_type, DepositType::Unrestricted);
    assert_eq!(c.get_deposit(d.id), Ok(d));
}

#[test]
fn test_record_deposit_program_specific() {
    let (env, mut c) = setup();
    let d = c
        .record_deposit(
            &env,
            SPONSOR,
            Some(program_id()),
            Some(ProgramStatus::Published),
            asset(),
            5000,
            [5u8; 32],
            None,
            NOW,
        )
        .unwrap();
    assert_eq!(d.amount, 5000);
    assert_eq!(d.program_id, Some(program_id()));
    let ledger = c.get_program_ledger(program_id()).unwrap();
    assert_eq!(ledger.total_deposits, 5000);
    assert_eq!(ledger.current_balance, 5000);
    assert_eq!(ledger.available_balance, 5000);
    assert_eq!(ledger.entries.len(), 1);
    assert_eq!(ledger.entries[0].entry_type, LedgerEntryType::Deposit);
    assert_eq!(ledger.entries[0].created_by, CONTRACT);
}

#[test]
fn test_create_funding_round() {
    let (env, mut c) = setup();
    let round = c
        .create_funding_round(
            &env,
            ADMIN,
            "Fall 2024 Scholarship Fund".to_string(),
            "Funding for fall scholarships".to_string(),
            10_000,
            asset(),
            NOW + 86_400,
            NOW + 86_400 * 30,
            NOW,
        )
        .unwrap();
    assert_eq!(round.target_amount, 10_000);
    assert!(round.is_active);
    assert_eq!(c.get_funding_round(round.id), Ok(round));
}

#[test]
fn test_record_award() {
    let (env, mut c) = setup();
    deposit(&env, &mut c, 10_000);
    assert!(c.record_award(&env, ADMIN, program_id(), asset(), 1000, [6u8; 32], NOW).is_ok());
    let ledger = c.get_program_ledger(program_id()).unwrap();
    assert_eq!(ledger.total_awards, 1000);
    assert_eq!(ledger.reserved_balance, 1000);
    assert_eq!(ledger.available_balance, 9000);
}

#[test]
fn test_record_disbursement() {
    let (env, mut c) = setup();
    deposit(&env, &mut c, 10_000);
    c.record_award(&env, ADMIN, program_id(), asset(), 1000, [6u8; 32], NOW).unwrap();
    assert!(c.record_disbursement(&env, ADMIN, program_id(), asset(), 1000, [6u8; 32], NOW).is_ok());
    let ledger = c.get_program_ledger(program_id()).unwrap();
    assert_eq!(ledger.total_disbursements, 1000);
    assert_eq!(ledger.reserved_balance, 0);
    assert_eq!(ledger.current_balance, 9000);
    assert_eq!(ledger.entries.len(), 3);
}

#[test]
fn test_reconcile_treasury_balanced() {
    let (env, mut c) = setup();
    deposit(&env, &mut c, 10_000);
    let r = c.reconcile_treasury(&env, ADMIN, program_id(), Some(ProgramStatus::Published), NOW).unwrap();
    assert_eq!(r.status, ReconciliationStatus::Balanced);
    assert_eq!(r.drift_amount, 0);
    assert_eq!(r.expected_balance, 10_000);
    assert!(r.discrepancies.is_empty());
    assert_eq!(c.get_reconciliation(r.id), Ok(r));
}

#[test]
fn test_create_receipt() {
    let (env, mut c) = setup();
    deposit(&env, &mut c, 10_000);
    c.record_award(&env, ADMIN, program_id(), asset(), 1000, [6u8; 32], NOW).unwrap();
    c.record_disbursement(&env, ADMIN, program_id(), asset(), 1000, [6u8; 32], NOW).unwrap();
    let intent_id = [7u8; 32];
    let intent = DisbursementIntent {
        program_id: program_id(),
        recipient: [0x7E; 32],
        installment: 1,
        amount: 1000,
        status: IntentStatus::Executed,
        executed_at: 1_700_000_000,
    };
    let receipt = c
        .create_receipt(&env, ADMIN, intent_id, Some(intent), Some(ProgramStatus::Published), [8u8; 32], "testnet".to_string(), NOW)
        .unwrap();
    assert_eq!(receipt.intent_id, intent_id);
    assert_eq!(receipt.amount, 1000);
    assert_ne!(receipt.receipt_hash, [0u8; 32]);
    assert_eq!(c.verify_receipt(&env, receipt.id), Ok(true));
}

#[test]
fn test_version() {
    assert_eq!(ScholarshipFinanceContract::version(), 1);
    assert_eq!(CONTRACT_VERSION, 1);
}

#[test]
fn a_non_positive_deposit_is_refused() {
    let (env, mut c) = setup();
    assert_eq!(
        c.record_deposit(&env, SPONSOR, None, None, asset(), 0, [5u8; 32], None, NOW),
        Err(ContractError::InvalidAmount)
    );
}

#[test]
fn a_deposit_to_an_unpublished_or_unknown_program_is_refused() {
    let (env, mut c) = setup();
    assert_eq!(
        c.record_deposit(&env, SPONSOR, Some(program_id()), Some(ProgramStatus::Draft), asset(), 10, [5u8; 32], None, NOW),
        Err(ContractError::ProgramNotPublished)
    );
    assert_eq!(
        c.record_deposit(&env, SPONSOR, Some(program_id()), None, asset(), 10, [5u8; 32], None, NOW),
        Err(ContractError::ProgramNotFound)
    );
    assert_eq!(c.get_program_ledger(program_id()).unwrap_err(), ContractError::LedgerNotFound);
}

#[test]
fn a_deposit_outside_its_funding_round_is_refused() {
    let (env, mut c) = setup();
    let round = c
        .create_funding_round(&env, ADMIN, "R".to_string(), "D".to_string(), 100, asset(), 100, 200, NOW)
        .unwrap();
    assert_eq!(
        c.record_deposit(&env, SPONSOR, None, None, asset(), 10, [5u8; 32], Some(round.id), 50),
        Err(ContractError::InvalidFundingRound)
    );
    assert_eq!(
        c.record_deposit(&env, SPONSOR, None, None, asset(), 10, [5u8; 32], Some([9u8; 32]), 150),
        Err(ContractError::FundingRoundNotFound)
    );
    assert!(c.record_deposit(&env, SPONSOR, None, None, asset(), 10, [5u8; 32], Some(round.id), 150).is_ok());
}

#[test]
fn a_funding_round_needs_a_target_and_a_window() {
    let (env, mut c) = setup();
    assert_eq!(
        c.create_funding_round(&env, ADMIN, "R".to_string(), "D".to_string(), 0, asset(), 1, 2, NOW),
        Err(ContractError::InvalidAmount)
    );
    assert_eq!(
        c.create_funding_round(&env, ADMIN, "R".to_string(), "D".to_string(), 5, asset(), 2, 2, NOW),
        Err(ContractError::InvalidFundingRound)
    );
    assert_eq!(
        c.create_funding_round(&env, SPONSOR, "R".to_string(), "D".to_string(), 5, asset(), 1, 2, NOW),
        Err(ContractError::NotAdmin)
    );
}

#[test]
fn a_disbursement_beyond_the_reserve_is_refused() {
    let (env, mut c) = setup();
    deposit(&env, &mut c, 10_000);
    c.record_award(&env, ADMIN, program_id(), asset(), 500, [6u8; 32], NOW).unwrap();
    assert_eq!(
        c.record_disbursement(&env, ADMIN, program_id(), asset(), 501, [6u8; 32], NOW),
        Err(ContractError::InvalidAmount)
    );
    assert_eq!(
        c.record_disbursement(&env, ADMIN, [9u8; 32], asset(), 1, [6u8; 32], NOW),
        Err(ContractError::LedgerNotFound)
    );
}

#[test]
fn reconciling_needs_a_published_or_closed_program() {
    let (env, mut c) = setup();
    deposit(&env, &mut c, 10);
    assert_eq!(
        c.reconcile_treasury(&env, ADMIN, program_id(), Some(ProgramStatus::Draft), NOW).unwrap_err(),
        ContractError::ProgramNotPublished
    );
    assert!(c.reconcile_treasury(&env, ADMIN, program_id(), Some(ProgramStatus::Closed), NOW).is_ok());
}

#[test]
fn a_receipt_needs_an_executed_intent() {
    let (env, mut c) = setup();
    let pending = DisbursementIntent {
        program_id: program_id(),
        recipient: [0x7E; 32],
        installment: 1,
        amount: 10,
        status: IntentStatus::Pending,
        executed_at: 0,
    };
    assert_eq!(
        c.create_receipt(&env, ADMIN, [7u8; 32], Some(pending), Some(ProgramStatus::Published), [8u8; 32], "n".to_string(), NOW),
        Err(ContractError::IntentNotExecutable)
    );
    assert_eq!(
        c.create_receipt(&env, ADMIN, [7u8; 32], None, None, [8u8; 32], "n".to_string(), NOW),
        Err(ContractError::IntentNotFound)
    );
    assert_eq!(c.verify_receipt(&env, [1u8; 32]), Err(ContractError::ReceiptNotFound));
}

#[test]
fn finance_error_codes_keep_their_numbers() {
    assert_eq!(ContractError::ProgramNotPublished.code(), 26);
    assert_eq!(ContractError::DepositNotFound.code(), 26);
    assert_eq!(ContractError::LedgerNotFound.code(), 28);
    assert_eq!(ContractError::InvalidReceiptData.code(), 31);
}

#[test]
fn tests_test_initialize() {
    let mut c = ScholarshipFinanceContract::new(CONTRACT);
    assert!(c.initialize(ADMIN, [1u8; 32]).is_ok());
    assert_eq!(c.initialize(ADMIN, [1u8; 32]), Err(ContractError::AlreadyInitialized));
}
