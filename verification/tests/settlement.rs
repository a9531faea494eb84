//! Settlement reconciliation scenarios: finality, idempotent reprocessing,
//! alerting mismatches, frontend status, authorization and bounds.

use chainverse::outbox::{ContractError, ScholarshipOutboxContract};
use chainverse::settlement::{SettlementState, MAX_FINALITY};

const AMOUNT: i128 = 1_000_000;

struct SettlementFixture {
    c: ScholarshipOutboxContract,
    ledger: u32,
    contract: [u8; 32],
    operator: [u8; 32],
    backend: [u8; 32],
}

fn hash(fill: u8) -> [u8; 32] {
    [fill; 32]
}

impl SettlementFixture {
    fn new() -> Self {
        let mut c = ScholarshipOutboxContract::new();
        let operator = [0x0A; 32];
        c.initialize(operator).unwrap();
        SettlementFixture { c, ledger: 100, contract: [0xCC; 32], operator, backend: [0xBE; 32] }
    }

    fn open(&mut self, id: u8, amount: i128) -> [u8; 32] {
        let intent_id = hash(id);
        self.c.open_settlement(self.operator, intent_id, self.contract, hash(99), amount, 2).unwrap();
        intent_id
    }

    fn try_open(&mut self, caller: [u8; 32], id: [u8; 32], amount: i128, finality: u32) -> Result<(), ContractError> {
        self.c.open_settlement(caller, id, self.contract, hash(99), amount, finality)
    }

    fn observe(&mut self, id: [u8; 32], tx: [u8; 32], ledger: u32) -> Result<(), ContractError> {
        self.c.observe_settlement(self.operator, id, tx, ledger, self.ledger)
    }

    fn reconcile(&mut self, id: [u8; 32], amount: i128) -> Result<SettlementState, ContractError> {
        self.c.reconcile_settlement(self.operator, id, amount, self.ledger)
    }

    fn settled_path(&mut self, id: u8, amount: i128) -> [u8; 32] {
        let intent_id = self.open(id, amount);
        let ledger = self.ledger;
        self.observe(intent_id, hash(7), ledger).unwrap();
        self.advance_ledgers(3);
        intent_id
    }

    fn advance_ledgers(&mut self, count: u32) {
        self.ledger += count;
    }

    fn expire(&mut self, id: [u8; 32]) -> Result<(), ContractError> {
        self.c.expire_settlement(self.operator, id)
    }

    fn resolve(&mut self, id: [u8; 32], reason: [u8; 32]) -> Result<(), ContractError> {
        self.c.resolve_settlement(self.operator, id, reason)
    }

    fn state(&self, id: [u8; 32]) -> SettlementState {
        self.c.get_intent(id).unwrap().state
    }
}

#[test]
fn reconciling_before_the_finality_window_elapses_is_refused() {
    let mut f = SettlementFixture::new();
    let id = f.open(1, AMOUNT);
    let ledger = f.ledger;
    f.observe(id, hash(7), ledger).unwrap();
    f.advance_ledgers(1);
    assert_eq!(f.reconcile(id, AMOUNT), Err(ContractError::NotFinal));
    assert_eq!(f.state(id), SettlementState::Pending);
}

#[test]
fn reconciling_exactly_at_the_finality_boundary_succeeds() {
    let mut f = SettlementFixture::new();
    let id = f.open(1, AMOUNT);
    let ledger = f.ledger;
    f.observe(id, hash(7), ledger).unwrap();
    f.advance_ledgers(2);
    assert_eq!(f.reconcile(id, AMOUNT), Ok(SettlementState::Reconciled));
}

#[test]
fn a_zero_finality_threshold_is_refused() {
    let mut f = SettlementFixture::new();
    let operator = f.operator;
    assert_eq!(f.try_open(operator, hash(1), AMOUNT, 0), Err(ContractError::InvalidFinality));
}

#[test]
fn an_unbounded_finality_threshold_is_refused() {
    let mut f = SettlementFixture::new();
    let operator = f.operator;
    assert_eq!(f.try_open(operator, hash(1), AMOUNT, MAX_FINALITY + 1), Err(ContractError::InvalidFinality));
}

#[test]
fn the_maximum_finality_threshold_is_accepted() {
    let mut f = SettlementFixture::new();
    let operator = f.operator;
    f.try_open(operator, hash(1), AMOUNT, MAX_FINALITY).unwrap();
    assert_eq!(f.c.get_intent(hash(1)).unwrap().required_finality, MAX_FINALITY);
}

#[test]
fn an_unobserved_intent_cannot_be_reconciled() {
    let mut f = SettlementFixture::new();
    let id = f.open(1, AMOUNT);
    assert_eq!(f.reconcile(id, AMOUNT), Err(ContractError::NotFinal));
}

#[test]
fn a_transaction_from_a_future_ledger_is_refused() {
    let mut f = SettlementFixture::new();
    let id = f.open(1, AMOUNT);
    let ahead = f.ledger + 100;
    assert_eq!(f.observe(id, hash(7), ahead), Err(ContractError::NotFinal));
}

#[test]
fn a_transaction_in_ledger_zero_is_refused() {
    let mut f = SettlementFixture::new();
    let id = f.open(1, AMOUNT);
    assert_eq!(f.observe(id, hash(7), 0), Err(ContractError::NotFinal));
}

#[test]
fn reprocessing_a_settled_intent_changes_nothing() {
    let mut f = SettlementFixture::new();
    let id = f.settled_path(1, AMOUNT);
    assert_eq!(f.reconcile(id, AMOUNT), Ok(SettlementState::Reconciled));
    f.reconcile(id, AMOUNT).unwrap();
    let before = f.c.get_intent(id).unwrap();
    for _ in 0..3 {
        assert_eq!(f.reconcile(id, AMOUNT), Ok(SettlementState::Reconciled));
    }
    assert_eq!(f.c.get_intent(id).unwrap(), before);
}

#[test]
fn reprocessing_cannot_flip_a_settled_intent_to_a_mismatch() {
    let mut f = SettlementFixture::new();
    let id = f.settled_path(1, AMOUNT);
    f.reconcile(id, AMOUNT).unwrap();
    assert_eq!(f.reconcile(id, AMOUNT * 2), Ok(SettlementState::Reconciled));
    assert_eq!(f.c.get_intent(id).unwrap().observed_amount, AMOUNT);
    assert_eq!(f.c.alert_count(), 0);
}

#[test]
fn reprocessing_cannot_clear_a_mismatch() {
    let mut f = SettlementFixture::new();
    let id = f.settled_path(1, AMOUNT);
    f.reconcile(id, AMOUNT + 1).unwrap();
    assert_eq!(f.state(id), SettlementState::Mismatched);
    assert_eq!(f.reconcile(id, AMOUNT), Ok(SettlementState::Mismatched));
    assert_eq!(f.state(id), SettlementState::Mismatched);
    assert_eq!(f.c.alert_count(), 1);
}

#[test]
fn re_reporting_the_same_observation_is_a_no_op() {
    let mut f = SettlementFixture::new();
    let id = f.open(1, AMOUNT);
    let ledger = f.ledger;
    f.observe(id, hash(7), ledger).unwrap();
    f.observe(id, hash(7), ledger).unwrap();
    assert_eq!(f.c.get_intent(id).unwrap().observed_ledger, ledger);
}

#[test]
fn a_second_transaction_cannot_replace_the_first() {
    let mut f = SettlementFixture::new();
    let id = f.open(1, AMOUNT);
    let ledger = f.ledger;
    f.observe(id, hash(7), ledger).unwrap();
    assert_eq!(f.observe(id, hash(8), ledger), Err(ContractError::AlreadyObserved));
    assert_eq!(f.c.get_intent(id).unwrap().observed_tx_hash, hash(7));
}

#[test]
fn opening_the_same_intent_twice_is_refused() {
    let mut f = SettlementFixture::new();
    f.open(1, AMOUNT);
    let operator = f.operator;
    assert_eq!(f.try_open(operator, hash(1), AMOUNT, 2), Err(ContractError::IntentExists));
    assert_eq!(f.c.tracked_intents(), 1);
}

#[test]
fn a_mismatch_is_recorded_and_counted() {
    let mut f = SettlementFixture::new();
    let id = f.settled_path(1, AMOUNT);
    assert_eq!(f.reconcile(id, AMOUNT - 1), Ok(SettlementState::Mismatched));
    assert_eq!(f.c.alert_count(), 1);
}

#[test]
fn a_missing_transaction_alerts() {
    let mut f = SettlementFixture::new();
    let id = f.open(1, AMOUNT);
    f.expire(id).unwrap();
    assert_eq!(f.state(id), SettlementState::Expired);
    assert_eq!(f.c.alert_count(), 1);
}

#[test]
fn a_settled_intent_does_not_alert() {
    let mut f = SettlementFixture::new();
    let id = f.settled_path(1, AMOUNT);
    f.reconcile(id, AMOUNT).unwrap();
    assert_eq!(f.c.alert_count(), 0);
}

#[test]
fn a_mismatch_is_resolved_only_explicitly() {
    let mut f = SettlementFixture::new();
    let id = f.settled_path(1, AMOUNT);
    f.reconcile(id, AMOUNT * 3).unwrap();
    assert_eq!(f.state(id), SettlementState::Mismatched);
    f.resolve(id, hash(42)).unwrap();
    let intent = f.c.get_intent(id).unwrap();
    assert_eq!(intent.state, SettlementState::Reconciled);
    assert_eq!(intent.resolution_hash, hash(42));
    assert_eq!(f.c.alert_count(), 0);
}

#[test]
fn resolving_without_a_reason_is_refused() {
    let mut f = SettlementFixture::new();
    let id = f.settled_path(1, AMOUNT);
    f.reconcile(id, AMOUNT * 3).unwrap();
    assert_eq!(f.resolve(id, [0u8; 32]), Err(ContractError::EmptyCommitment));
    assert_eq!(f.state(id), SettlementState::Mismatched);
}

#[test]
fn a_settled_intent_cannot_be_resolved() {
    let mut f = SettlementFixture::new();
    let id = f.settled_path(1, AMOUNT);
    f.reconcile(id, AMOUNT).unwrap();
    assert_eq!(f.resolve(id, hash(42)), Err(ContractError::InvalidState));
}

#[test]
fn a_pending_intent_cannot_be_resolved() {
    let mut f = SettlementFixture::new();
    let id = f.open(1, AMOUNT);
    assert_eq!(f.resolve(id, hash(42)), Err(ContractError::InvalidState));
}

#[test]
fn an_expired_intent_cannot_be_reconciled() {
    let mut f = SettlementFixture::new();
    let id = f.open(1, AMOUNT);
    f.expire(id).unwrap();
    f.advance_ledgers(10);
    assert_eq!(f.reconcile(id, AMOUNT), Ok(SettlementState::Expired));
    assert_eq!(f.state(id), SettlementState::Expired);
    assert_eq!(f.c.alert_count(), 1);
}

#[test]
fn a_pending_intent_reports_no_settled_amount() {
    let mut f = SettlementFixture::new();
    let id = f.open(1, AMOUNT);
    let view = f.c.settlement_status(id).unwrap();
    assert_eq!(view.state, SettlementState::Pending);
    assert_eq!(view.settled_amount, 0);
}

#[test]
fn a_mismatched_intent_reports_no_settled_amount() {
    let mut f = SettlementFixture::new();
    let id = f.settled_path(1, AMOUNT);
    f.reconcile(id, AMOUNT * 5).unwrap();
    let view = f.c.settlement_status(id).unwrap();
    assert_eq!(view.state, SettlementState::Mismatched);
    assert_eq!(view.settled_amount, 0);
    assert_eq!(view.observed_amount, AMOUNT * 5);
}

#[test]
fn a_reconciled_intent_reports_the_settled_amount() {
    let mut f = SettlementFixture::new();
    let id = f.settled_path(1, AMOUNT);
    f.reconcile(id, AMOUNT).unwrap();
    let view = f.c.settlement_status(id).unwrap();
    assert_eq!(view.state, SettlementState::Reconciled);
    assert_eq!(view.settled_amount, AMOUNT);
}

#[test]
fn settled_amount_refuses_to_answer_for_an_unreconciled_intent() {
    let mut f = SettlementFixture::new();
    let id = f.open(1, AMOUNT);
    assert_eq!(f.c.settled_amount(id), Err(ContractError::InvalidState));
    let settled = f.settled_path(2, AMOUNT);
    f.reconcile(settled, AMOUNT).unwrap();
    assert_eq!(f.c.settled_amount(settled), Ok(AMOUNT));
}

#[test]
fn a_resolved_mismatch_can_report_the_observed_amount() {
    let mut f = SettlementFixture::new();
    let id = f.settled_path(1, AMOUNT);
    f.reconcile(id, AMOUNT * 5).unwrap();
    f.resolve(id, hash(42)).unwrap();
    assert_eq!(f.c.settled_amount(id), Ok(AMOUNT * 5));
}

#[test]
fn a_non_operator_cannot_open_an_intent() {
    let mut f = SettlementFixture::new();
    let backend = f.backend;
    assert_eq!(f.try_open(backend, hash(1), AMOUNT, 2), Err(ContractError::NotAdmin));
}

#[test]
fn a_non_operator_cannot_reconcile() {
    let mut f = SettlementFixture::new();
    let id = f.settled_path(1, AMOUNT);
    let (backend, ledger) = (f.backend, f.ledger);
    assert_eq!(f.c.reconcile_settlement(backend, id, AMOUNT, ledger), Err(ContractError::NotAdmin));
    assert_eq!(f.state(id), SettlementState::Pending);
}

#[test]
fn a_non_operator_cannot_archive() {
    let mut f = SettlementFixture::new();
    let id = f.settled_path(1, AMOUNT);
    f.reconcile(id, AMOUNT).unwrap();
    let backend = f.backend;
    assert_eq!(f.c.archive_settlement(backend, id), Err(ContractError::NotAdmin));
    assert!(f.c.get_intent(id).is_ok());
}

#[test]
fn an_unknown_intent_is_reported_as_such() {
    let f = SettlementFixture::new();
    assert_eq!(f.c.settlement_status(hash(200)), Err(ContractError::IntentNotFound));
}

#[test]
fn a_zero_amount_intent_is_refused() {
    let mut f = SettlementFixture::new();
    let operator = f.operator;
    assert_eq!(f.try_open(operator, hash(1), 0, 2), Err(ContractError::InvalidAmount));
}

#[test]
fn a_negative_amount_intent_is_refused() {
    let mut f = SettlementFixture::new();
    let operator = f.operator;
    assert_eq!(f.try_open(operator, hash(1), -1, 2), Err(ContractError::InvalidAmount));
}

#[test]
fn archiving_frees_a_slot() {
    let mut f = SettlementFixture::new();
    let id = f.settled_path(1, AMOUNT);
    f.reconcile(id, AMOUNT).unwrap();
    assert_eq!(f.c.tracked_intents(), 1);
    let operator = f.operator;
    f.c.archive_settlement(operator, id).unwrap();
    assert_eq!(f.c.tracked_intents(), 0);
    assert_eq!(f.c.get_intent(id), Err(ContractError::IntentNotFound));
}

#[test]
fn a_disputed_intent_cannot_be_archived() {
    let mut f = SettlementFixture::new();
    let id = f.settled_path(1, AMOUNT);
    f.reconcile(id, AMOUNT * 5).unwrap();
    let operator = f.operator;
    assert_eq!(f.c.archive_settlement(operator, id), Err(ContractError::InvalidState));
    assert_eq!(f.c.tracked_intents(), 1);
}

#[test]
fn a_pending_intent_cannot_be_archived() {
    let mut f = SettlementFixture::new();
    let id = f.open(1, AMOUNT);
    let operator = f.operator;
    assert_eq!(f.c.archive_settlement(operator, id), Err(ContractError::InvalidState));
}

#[test]
fn a_pending_intent_cannot_be_expired_twice() {
    let mut f = SettlementFixture::new();
    let id = f.open(1, AMOUNT);
    f.expire(id).unwrap();
    assert_eq!(f.expire(id), Err(ContractError::InvalidState));
    assert_eq!(f.c.alert_count(), 1);
}

#[test]
fn alerting_states_are_the_two_that_need_a_human() {
    assert!(SettlementState::Mismatched.is_alerting());
    assert!(SettlementState::Expired.is_alerting());
    assert!(!SettlementState::Pending.is_alerting());
    assert!(!SettlementState::Reconciled.is_alerting());
}

#[test]
fn many_intents_stay_independent() {
    let mut f = SettlementFixture::new();
    let mut ids = Vec::new();
    for n in 0..5u8 {
        ids.push(f.settled_path(n, AMOUNT + n as i128));
    }
    f.reconcile(ids[0], AMOUNT).unwrap();
    f.reconcile(ids[1], AMOUNT + 999).unwrap();
    assert_eq!(f.state(ids[0]), SettlementState::Reconciled);
    assert_eq!(f.state(ids[1]), SettlementState::Mismatched);
    assert_eq!(f.state(ids[2]), SettlementState::Pending);
    assert_eq!(f.c.alert_count(), 1);
    assert_eq!(f.c.tracked_intents(), 5);
}

#[test]
fn an_observation_with_an_empty_hash_is_refused() {
    let mut f = SettlementFixture::new();
    let id = f.open(1, AMOUNT);
    let ledger = f.ledger;
    assert_eq!(f.observe(id, [0u8; 32], ledger), Err(ContractError::EmptyCommitment));
}

#[test]
fn an_expired_intent_takes_no_observation() {
    let mut f = SettlementFixture::new();
    let id = f.open(1, AMOUNT);
    f.expire(id).unwrap();
    let ledger = f.ledger;
    assert_eq!(f.observe(id, hash(7), ledger), Err(ContractError::InvalidState));
}

/// A call that carries no operator signature reaches the library with an
/// identity that is not the operator's, and is refused.
#[test]
fn settlement_operations_require_a_signature() {
    let mut f = SettlementFixture::new();
    let id = f.open(1, AMOUNT);
    let ledger = f.ledger;
    assert!(f.c.reconcile_settlement([0u8; 32], id, AMOUNT, ledger).is_err());
    assert_eq!(f.state(id), SettlementState::Pending);
}
