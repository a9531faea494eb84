//! Scholarship finance: sponsor deposits and funding rounds, per-program
//! ledgers, treasury reconciliation, and recipient payment receipts.
//!
//! Each program ledger keeps an append-only list of entries and running
//! totals, with `current_balance` equal to deposits less disbursements,
//! `reserved_balance` equal to awards less disbursements, and
//! `available_balance` equal to deposits less awards. The program registry
//! and the disbursement book live in other contracts: what they report
//! (a program's status, a disbursement intent) comes in as a plain value.
//! Nothing personal is stored: ids, amounts, timestamps and status enums.
//! A refused call changes nothing.
use vstd::prelude::*;
use soroban_sdk::Env;
use crate::table::{Bytes32, Table, bytes32_eq, new_zero32, zero32};
use crate::crypto::{be_u64, counter_id, derive_counter_id, next_counter, push_be_u64, sha256, sha256_of};

verus! {

pub const CONTRACT_VERSION: u32 = 1;

#[derive(Copy, Clone, Debug, PartialEq, Eq, Structural)]
pub enum ContractError {
    NotInitialized,
    AlreadyInitialized,
    NotAdmin,
    NotAuthorized,
    InvalidAmount,
    IntentNotFound,
    IntentNotExecutable,
    AlreadyExecuted,
    IntentOnHold,
    WalletNotFound,
    WalletNotVerified,
    InvalidFeeConfig,
    FeeCalculationOverflow,
    RefundNotAuthorized,
    RefundAmountExceedsPaid,
    RefundAlreadyProcessed,
    RecoveryNotAuthorized,
    RecoveryAmountExceedsOutstanding,
    RecoveryAlreadyProcessed,
    InvalidRecoveryReason,
    StatementNotFound,
    StatementGenerationFailed,
    InvalidDateRange,
    CurrencyMismatch,
    ProgramNotFound,
    ProgramNotPublished,
    ArithmeticOverflow,
    InvalidConfiguration,
    DepositNotFound,
    FundingRoundNotFound,
    InvalidFundingRound,
    LedgerNotFound,
    ReconciliationFailed,
    ReceiptNotFound,
    InvalidReceiptData,
}

impl ContractError {
    /// The numeric code a client sees. Several late variants share the
    /// codes of earlier ones.
    pub fn code(self) -> (c: u32)
        ensures
            c == match self {
                ContractError::NotInitialized => 1u32,
                ContractError::AlreadyInitialized => 2u32,
                ContractError::NotAdmin => 3u32,
                ContractError::NotAuthorized => 4u32,
                ContractError::InvalidAmount => 5u32,
                ContractError::IntentNotFound => 6u32,
                ContractError::IntentNotExecutable => 7u32,
                ContractError::AlreadyExecuted => 8u32,
                ContractError::IntentOnHold => 9u32,
                ContractError::WalletNotFound => 10u32,
                ContractError::WalletNotVerified => 11u32,
                ContractError::InvalidFeeConfig => 12u32,
                ContractError::FeeCalculationOverflow => 13u32,
                ContractError::RefundNotAuthorized => 14u32,
                ContractError::RefundAmountExceedsPaid => 15u32,
                ContractError::RefundAlreadyProcessed => 16u32,
                ContractError::RecoveryNotAuthorized => 17u32,
                ContractError::RecoveryAmountExceedsOutstanding => 18u32,
                ContractError::RecoveryAlreadyProcessed => 19u32,
                ContractError::InvalidRecoveryReason => 20u32,
                ContractError::StatementNotFound => 21u32,
                ContractError::StatementGenerationFailed => 22u32,
                ContractError::InvalidDateRange => 23u32,
                ContractError::CurrencyMismatch => 24u32,
                ContractError::ProgramNotFound => 25u32,
                ContractError::ProgramNotPublished => 26u32,
                ContractError::ArithmeticOverflow => 27u32,
                ContractError::InvalidConfiguration => 28u32,
                ContractError::DepositNotFound => 26u32,
                ContractError::FundingRoundNotFound => 27u32,
                ContractError::InvalidFundingRound => 28u32,
                ContractError::LedgerNotFound => 28u32,
                ContractError::ReconciliationFailed => 29u32,
                ContractError::ReceiptNotFound => 30u32,
                ContractError::InvalidReceiptData => 31u32,
            },
    {
        match self {
            ContractError::NotInitialized => 1,
            ContractError::AlreadyInitialized => 2,
            ContractError::NotAdmin => 3,
            ContractError::NotAuthorized => 4,
            ContractError::InvalidAmount => 5,
            ContractError::IntentNotFound => 6,
            ContractError::IntentNotExecutable => 7,
            ContractError::AlreadyExecuted => 8,
            ContractError::IntentOnHold => 9,
            ContractError::WalletNotFound => 10,
            ContractError::WalletNotVerified => 11,
            ContractError::InvalidFeeConfig => 12,
            ContractError::FeeCalculationOverflow => 13,
            ContractError::RefundNotAuthorized => 14,
            ContractError::RefundAmountExceedsPaid => 15,
            ContractError::RefundAlreadyProcessed => 16,
            ContractError::RecoveryNotAuthorized => 17,
            ContractError::RecoveryAmountExceedsOutstanding => 18,
            ContractError::RecoveryAlreadyProcessed => 19,
            ContractError::InvalidRecoveryReason => 20,
            ContractError::StatementNotFound => 21,
            ContractError::StatementGenerationFailed => 22,
            ContractError::InvalidDateRange => 23,
            ContractError::CurrencyMismatch => 24,
            ContractError::ProgramNotFound => 25,
            ContractError::ProgramNotPublished => 26,
            ContractError::ArithmeticOverflow => 27,
            ContractError::InvalidConfiguration => 28,
            ContractError::DepositNotFound => 26,
            ContractError::FundingRoundNotFound => 27,
            ContractError::InvalidFundingRound => 28,
            ContractError::LedgerNotFound => 28,
            ContractError::ReconciliationFailed => 29,
            ContractError::ReceiptNotFound => 30,
            ContractError::InvalidReceiptData => 31,
        }
    }
}

/// A program's lifecycle status, as the program registry reports it.
#[derive(Copy, Clone, Debug, PartialEq, Eq, Structural)]
pub enum ProgramStatus {
    Draft,
    Published,
    Closed,
    Archived,
}

/// A disbursement intent's status, as the disbursement book reports it.
#[derive(Copy, Clone, Debug, PartialEq, Eq, Structural)]
pub enum IntentStatus {
    Pending,
    Approved,
    OnHold,
    Executed,
    Cancelled,
}

/// What the disbursement book reports of one payment intent.
#[derive(Copy, Clone, Debug, PartialEq, Eq)]
pub struct DisbursementIntent {
    pub program_id: Bytes32,
    pub recipient: Bytes32,
    pub installment: u32,
    pub amount: i128,
    pub status: IntentStatus,
    pub executed_at: u64,
}

#[derive(Copy, Clone, Debug, PartialEq, Eq, Structural)]
pub enum DepositType {
    Unrestricted,
    ProgramSpecific,
}

#[derive(Copy, Clone, Debug, PartialEq, Eq)]
pub struct DepositRecord {
    pub id: Bytes32,
    pub sponsor_id: Bytes32,
    pub program_id: Option<Bytes32>,
    pub deposit_type: DepositType,
    pub asset: Bytes32,
    pub amount: i128,
    pub tx_hash: Bytes32,
    pub timestamp: u64,
    pub funding_round_id: Option<Bytes32>,
}

/// A sponsor fundraising window.
#[derive(Debug, PartialEq, Eq)]
pub struct FundingRound {
    pub id: Bytes32,
    pub name: String,
    pub description: String,
    pub target_amount: i128,
    pub asset: Bytes32,
    pub start_time: u64,
    pub end_time: u64,
    pub is_active: bool,
    pub created_at: u64,
    pub created_by: Bytes32,
}

impl Clone for FundingRound {
    fn clone(&self) -> (r: Self)
        ensures
            r == *self,
    {
        FundingRound {
            id: self.id,
            name: self.name.clone(),
            description: self.description.clone(),
            target_amount: self.target_amount,
            asset: self.asset,
            start_time: self.start_time,
            end_time: self.end_time,
            is_active: self.is_active,
            created_at: self.created_at,
            created_by: self.created_by,
        }
    }
}

#[derive(Copy, Clone, Debug, PartialEq, Eq, Structural)]
pub enum LedgerEntryType {
    Deposit,
    Withdrawal,
    Award,
    Disbursement,
    Refund,
    Recovery,
    Fee,
    Adjustment,
}

/// What a ledger entry refers to.
#[derive(Copy, Clone, Debug, PartialEq, Eq, Structural)]
pub enum ReferenceKind {
    Award,
    Disbursement,
}

#[derive(Copy, Clone, Debug, PartialEq, Eq)]
pub struct LedgerEntry {
    pub id: Bytes32,
    pub program_id: Bytes32,
    pub entry_type: LedgerEntryType,
    pub asset: Bytes32,
    pub amount: i128,
    pub balance_after: i128,
    pub reference_id: Option<Bytes32>,
    pub reference_type: Option<ReferenceKind>,
    pub timestamp: u64,
    pub created_by: Bytes32,
}

/// A program's running ledger.
#[derive(Debug, PartialEq, Eq)]
pub struct ProgramLedger {
    pub program_id: Bytes32,
    pub sponsor_id: Bytes32,
    pub currency: Bytes32,
    pub entries: Vec<LedgerEntry>,
    pub total_deposits: i128,
    pub total_withdrawals: i128,
    pub total_awards: i128,
    pub total_disbursements: i128,
    pub total_refunds: i128,
    pub total_recoveries: i128,
    pub total_fees: i128,
    pub current_balance: i128,
    pub reserved_balance: i128,
    pub available_balance: i128,
    pub last_updated: u64,
}

pub struct LedgerView {
    pub program_id: Bytes32,
    pub sponsor_id: Bytes32,
    pub currency: Bytes32,
    pub entries: Seq<LedgerEntry>,
    pub total_deposits: i128,
    pub total_withdrawals: i128,
    pub total_awards: i128,
    pub total_disbursements: i128,
    pub total_refunds: i128,
    pub total_recoveries: i128,
    pub total_fees: i128,
    pub current_balance: i128,
    pub reserved_balance: i128,
    pub available_balance: i128,
    pub last_updated: u64,
}

impl ProgramLedger {
    pub open spec fn view(&self) -> LedgerView {
        LedgerView {
            program_id: self.program_id,
            sponsor_id: self.sponsor_id,
            currency: self.currency,
            entries: self.entries@,
            total_deposits: self.total_deposits,
            total_withdrawals: self.total_withdrawals,
            total_awards: self.total_awards,
            total_disbursements: self.total_disbursements,
            total_refunds: self.total_refunds,
            total_recoveries: self.total_recoveries,
            total_fees: self.total_fees,
            current_balance: self.current_balance,
            reserved_balance: self.reserved_balance,
            available_balance: self.available_balance,
            last_updated: self.last_updated,
        }
    }
}

fn clone_entries(v: &Vec<LedgerEntry>) -> (r: Vec<LedgerEntry>)
    ensures
        r@ == v@,
{
    let mut r: Vec<LedgerEntry> = Vec::new();
    let mut i: usize = 0;
    while i < v.len()
        invariant
            i <= v@.len(),
            r@ == v@.take(i as int),
        decreases v@.len() - i,
    {
        r.push(v[i]);
        proof {
            assert(r@ =~= v@.take(i + 1));
        }
        i = i + 1;
    }
    proof {
        assert(v@.take(v@.len() as int) =~= v@);
    }
    r
}

impl Clone for ProgramLedger {
    fn clone(&self) -> (r: Self)
        ensures
            r@ == self@,
    {
        ProgramLedger { entries: clone_entries(&self.entries), ..*self }
    }
}

#[derive(Copy, Clone, Debug, PartialEq, Eq, Structural)]
pub enum ReconciliationStatus {
    Balanced,
    DriftDetected,
    InsolvencyRisk,
}

#[derive(Debug, PartialEq, Eq)]
pub struct Discrepancy {
    pub entry_id: Bytes32,
    pub expected: i128,
    pub actual: i128,
    pub description: String,
}

impl Clone for Discrepancy {
    fn clone(&self) -> (r: Self)
        ensures
            r == *self,
    {
        Discrepancy {
            entry_id: self.entry_id,
            expected: self.expected,
            actual: self.actual,
            description: self.description.clone(),
        }
    }
}

#[derive(Debug, PartialEq, Eq)]
pub struct ReconciliationRecord {
    pub id: Bytes32,
    pub program_id: Bytes32,
    pub status: ReconciliationStatus,
    pub expected_balance: i128,
    pub actual_balance: i128,
    pub drift_amount: i128,
    pub discrepancies: Vec<Discrepancy>,
    pub reconciled_at: u64,
    pub reconciled_by: Bytes32,
}

pub struct ReconciliationView {
    pub id: Bytes32,
    pub program_id: Bytes32,
    pub status: ReconciliationStatus,
    pub expected_balance: i128,
    pub actual_balance: i128,
    pub drift_amount: i128,
    pub discrepancies: Seq<Discrepancy>,
    pub reconciled_at: u64,
    pub reconciled_by: Bytes32,
}

impl ReconciliationRecord {
    pub open spec fn view(&self) -> ReconciliationView {
        ReconciliationView {
            id: self.id,
            program_id: self.program_id,
            status: self.status,
            expected_balance: self.expected_balance,
            actual_balance: self.actual_balance,
            drift_amount: self.drift_amount,
            discrepancies: self.discrepancies@,
            reconciled_at: self.reconciled_at,
            reconciled_by: self.reconciled_by,
        }
    }
}

impl Clone for ReconciliationRecord {
    fn clone(&self) -> (r: Self)
        ensures
            r@ == self@,
    {
        let d = self.discrepancies.clone();
        proof {
            assert(d@ =~= self.discrepancies@);
        }
        ReconciliationRecord {
            id: self.id,
            program_id: self.program_id,
            status: self.status,
            expected_balance: self.expected_balance,
            actual_balance: self.actual_balance,
            drift_amount: self.drift_amount,
            discrepancies: d,
            reconciled_at: self.reconciled_at,
            reconciled_by: self.reconciled_by,
        }
    }
}

/// A recipient's proof of payment; `receipt_hash` commits to the intent,
/// the transaction, the amount and the completion time.
#[derive(Debug, PartialEq, Eq)]
pub struct PaymentReceipt {
    pub id: Bytes32,
    pub intent_id: Bytes32,
    pub program_id: Bytes32,
    pub recipient: Bytes32,
    pub award_id: Bytes32,
    pub installment: u32,
    pub asset: Bytes32,
    pub amount: i128,
    pub tx_hash: Bytes32,
    pub network: String,
    pub completed_at: u64,
    pub receipt_hash: Bytes32,
}

impl Clone for PaymentReceipt {
    fn clone(&self) -> (r: Self)
        ensures
            r == *self,
    {
        PaymentReceipt {
            id: self.id,
            intent_id: self.intent_id,
            program_id: self.program_id,
            recipient: self.recipient,
            award_id: self.award_id,
            installment: self.installment,
            asset: self.asset,
            amount: self.amount,
            tx_hash: self.tx_hash,
            network: self.network.clone(),
            completed_at: self.completed_at,
            receipt_hash: self.receipt_hash,
        }
    }
}

// ── Encodings ──────────────────────────────────────────────────────────────

/// The big-endian two's-complement encoding of `n`.
pub open spec fn be_i128(n: i128) -> Seq<u8> {
    Seq::new(16, |k: int| ((n as u128) >> ((8 * (15 - k)) as u128)) as u8)
}

fn push_be_i128(out: &mut Vec<u8>, n: i128)
    ensures
        final(out)@ == old(out)@ + be_i128(n),
{
    let u = n as u128;
    let mut k: u32 = 0;
    while k < 16
        invariant
            k <= 16,
            u == n as u128,
            out@ == old(out)@ + be_i128(n).take(k as int),
        decreases 16 - k,
    {
        let shift: u128 = (8 * (15 - k)) as u128;
        out.push((u >> shift) as u8);
        proof {
            assert(be_i128(n)[k as int] == ((n as u128) >> shift) as u8);
            assert(out@ =~= old(out)@ + be_i128(n).take(k + 1));
        }
        k = k + 1;
    }
    proof {
        assert(be_i128(n).take(16) =~= be_i128(n));
    }
}

fn push_bytes32(out: &mut Vec<u8>, a: &Bytes32)
    ensures
        final(out)@ == old(out)@ + a@,
{
    let mut k: usize = 0;
    while k < 32
        invariant
            k <= 32,
            out@ == old(out)@ + a@.take(k as int),
        decreases 32 - k,
    {
        out.push(a[k]);
        proof {
            assert(out@ =~= old(out)@ + a@.take(k + 1));
        }
        k = k + 1;
    }
    proof {
        assert(a@.take(32) =~= a@);
    }
}

/// The commitment a receipt carries.
pub open spec fn receipt_hash_of(intent_id: Bytes32, tx_hash: Bytes32, amount: i128, completed_at: u64) -> Bytes32 {
    sha256_of(intent_id@ + tx_hash@ + be_i128(amount) + be_u64(completed_at))
}

fn compute_receipt_hash(env: &Env, intent_id: &Bytes32, tx_hash: &Bytes32, amount: i128, completed_at: u64) -> (h:
    Bytes32)
    ensures
        h == receipt_hash_of(*intent_id, *tx_hash, amount, completed_at),
{
    let mut input: Vec<u8> = Vec::new();
    push_bytes32(&mut input, intent_id);
    push_bytes32(&mut input, tx_hash);
    push_be_i128(&mut input, amount);
    push_be_u64(&mut input, completed_at);
    proof {
        assert(input@ =~= intent_id@ + tx_hash@ + be_i128(amount) + be_u64(completed_at));
    }
    sha256(env, &input)
}

/// The currency code every new ledger starts in: "XLM", zero-padded.
pub open spec fn is_xlm(a: Bytes32) -> bool {
    &&& a@[0] == 88u8
    &&& a@[1] == 76u8
    &&& a@[2] == 77u8
    &&& forall|j: int| 3 <= j < 32 ==> a@[j] == 0
}

pub open spec fn xlm_code() -> Bytes32 {
    choose|a: Bytes32| is_xlm(a)
}

fn new_xlm_code() -> (a: Bytes32)
    ensures
        a == xlm_code(),
{
    broadcast use vstd::array::group_array_axioms;

    let mut a: Bytes32 = [0u8; 32];
    a[0] = 88u8;
    a[1] = 76u8;
    a[2] = 77u8;
    proof {
        assert(is_xlm(a));
        let c = xlm_code();
        assert(is_xlm(c));
        assert(c =~= a);
    }
    a
}

// ── Ledger arithmetic ──────────────────────────────────────────────────────

pub open spec fn fits(x: int) -> bool {
    i128::MIN <= x <= i128::MAX
}

/// The ledger a program starts with.
pub open spec fn empty_ledger(program_id: Bytes32) -> LedgerView {
    LedgerView {
        program_id,
        sponsor_id: zero32(),
        currency: xlm_code(),
        entries: Seq::empty(),
        total_deposits: 0,
        total_withdrawals: 0,
        total_awards: 0,
        total_disbursements: 0,
        total_refunds: 0,
        total_recoveries: 0,
        total_fees: 0,
        current_balance: 0,
        reserved_balance: 0,
        available_balance: 0,
        last_updated: 0,
    }
}

/// A deposit credited to a ledger, or `None` when a total would overflow.
pub open spec fn apply_deposit(
    l: LedgerView,
    entry_id: Bytes32,
    asset: Bytes32,
    amount: i128,
    by: Bytes32,
    now: u64,
) -> Option<LedgerView> {
    if !fits(l.current_balance + amount) || !fits(l.total_deposits + amount) || !fits(
        l.available_balance + amount,
    ) {
        None
    } else {
        let entry = LedgerEntry {
            id: entry_id,
            program_id: l.program_id,
            entry_type: LedgerEntryType::Deposit,
            asset,
            amount,
            balance_after: (l.current_balance + amount) as i128,
            reference_id: None,
            reference_type: None,
            timestamp: now,
            created_by: by,
        };
        Some(
            LedgerView {
                entries: l.entries.push(entry),
                total_deposits: (l.total_deposits + amount) as i128,
                current_balance: (l.current_balance + amount) as i128,
                available_balance: (l.available_balance + amount) as i128,
                last_updated: now,
                ..l
            },
        )
    }
}

/// Credits a deposit to a program's ledger: one `Deposit` entry, and the
/// deposit, current and available totals up by `amount`. Refused, with the
/// ledger untouched, when a total would overflow.
fn update_ledger_on_deposit(
    l: &mut ProgramLedger,
    entry_id: Bytes32,
    asset: Bytes32,
    amount: i128,
    by: Bytes32,
    now: u64,
) -> (r: Result<(), ContractError>)
    ensures
        match apply_deposit(old(l)@, entry_id, asset, amount, by, now) {
            None => r == Err::<(), ContractError>(ContractError::ArithmeticOverflow) && final(l)@ == old(l)@,
            Some(m) => r == Ok::<(), ContractError>(()) && final(l)@ == m,
        },
{
    let balance_after = match l.current_balance.checked_add(amount) {
        Some(b) => b,
        None => return Err(ContractError::ArithmeticOverflow),
    };
    let total_deposits = match l.total_deposits.checked_add(amount) {
        Some(t) => t,
        None => return Err(ContractError::ArithmeticOverflow),
    };
    let available = match l.available_balance.checked_add(amount) {
        Some(a) => a,
        None => return Err(ContractError::ArithmeticOverflow),
    };
    l.entries.push(
        LedgerEntry {
            id: entry_id,
            program_id: l.program_id,
            entry_type: LedgerEntryType::Deposit,
            asset,
            amount,
            balance_after,
            reference_id: None,
            reference_type: None,
            timestamp: now,
            created_by: by,
        },
    );
    l.total_deposits = total_deposits;
    l.current_balance = balance_after;
    l.available_balance = available;
    l.last_updated = now;
    Ok(())
}

/// An award reserved out of a ledger's available funds.
pub open spec fn apply_award(
    l: LedgerView,
    entry_id: Bytes32,
    asset: Bytes32,
    amount: i128,
    reference_id: Bytes32,
    by: Bytes32,
    now: u64,
) -> Option<LedgerView> {
    if !fits(l.reserved_balance + amount) || !fits(l.available_balance - amount) || !fits(
        l.total_awards + amount,
    ) {
        None
    } else {
        let entry = LedgerEntry {
            id: entry_id,
            program_id: l.program_id,
            entry_type: LedgerEntryType::Award,
            asset,
            amount,
            balance_after: l.current_balance,
            reference_id: Some(reference_id),
            reference_type: Some(ReferenceKind::Award),
            timestamp: now,
            created_by: by,
        };
        Some(
            LedgerView {
                entries: l.entries.push(entry),
                total_awards: (l.total_awards + amount) as i128,
                reserved_balance: (l.reserved_balance + amount) as i128,
                available_balance: (l.available_balance - amount) as i128,
                last_updated: now,
                ..l
            },
        )
    }
}

/// A disbursement paid out of a ledger's reserved funds.
pub open spec fn apply_disbursement(
    l: LedgerView,
    entry_id: Bytes32,
    asset: Bytes32,
    amount: i128,
    reference_id: Bytes32,
    by: Bytes32,
    now: u64,
) -> Option<LedgerView> {
    if !fits(l.current_balance - amount) || !fits(l.total_disbursements + amount) || !fits(
        l.reserved_balance - amount,
    ) {
        None
    } else {
        let entry = LedgerEntry {
            id: entry_id,
            program_id: l.program_id,
            entry_type: LedgerEntryType::Disbursement,
            asset,
            amount,
            balance_after: (l.current_balance - amount) as i128,
            reference_id: Some(reference_id),
            reference_type: Some(ReferenceKind::Disbursement),
            timestamp: now,
            created_by: by,
        };
        Some(
            LedgerView {
                entries: l.entries.push(entry),
                total_disbursements: (l.total_disbursements + amount) as i128,
                reserved_balance: (l.reserved_balance - amount) as i128,
                current_balance: (l.current_balance - amount) as i128,
                last_updated: now,
                ..l
            },
        )
    }
}

/// The balances agree with the totals.
pub open spec fn ledger_consistent(l: LedgerView) -> bool {
    &&& l.current_balance == l.total_deposits - l.total_disbursements
    &&& l.reserved_balance == l.total_awards - l.total_disbursements
    &&& l.available_balance == l.total_deposits - l.total_awards
}

// ── Contract state ─────────────────────────────────────────────────────────

/// The abstract storage of the finance contract.
pub struct FinanceState {
    pub admin: Option<Bytes32>,
    pub network_id: Bytes32,
    pub counter: u64,
    pub deposits: Map<Bytes32, DepositRecord>,
    pub rounds: Map<Bytes32, FundingRound>,
    pub ledgers: Map<Bytes32, LedgerView>,
    pub reconciliations: Map<Bytes32, ReconciliationView>,
    pub receipts: Map<Bytes32, PaymentReceipt>,
}

pub open spec fn admin_gate(s: FinanceState, caller: Bytes32) -> Result<(), ContractError> {
    match s.admin {
        None => Err(ContractError::NotInitialized),
        Some(a) => if a == caller {
            Ok(())
        } else {
            Err(ContractError::NotAdmin)
        },
    }
}

pub open spec fn ledger_or_empty(s: FinanceState, program_id: Bytes32) -> LedgerView {
    if s.ledgers.contains_key(program_id) {
        s.ledgers[program_id]
    } else {
        empty_ledger(program_id)
    }
}

/// Why a deposit is refused before anything is written, if it is.
pub open spec fn deposit_precheck(
    s: FinanceState,
    program_id: Option<Bytes32>,
    program: Option<ProgramStatus>,
    amount: i128,
    funding_round_id: Option<Bytes32>,
    now: u64,
) -> Result<(), ContractError> {
    if amount <= 0 {
        Err(ContractError::InvalidAmount)
    } else if program_id is Some && program is None {
        Err(ContractError::ProgramNotFound)
    } else if program_id is Some && program != Some(ProgramStatus::Published) {
        Err(ContractError::ProgramNotPublished)
    } else if funding_round_id is Some && !s.rounds.contains_key(funding_round_id->Some_0) {
        Err(ContractError::FundingRoundNotFound)
    } else if funding_round_id is Some && !s.rounds[funding_round_id->Some_0].is_active {
        Err(ContractError::InvalidFundingRound)
    } else if funding_round_id is Some && (now < s.rounds[funding_round_id->Some_0].start_time || now
        > s.rounds[funding_round_id->Some_0].end_time) {
        Err(ContractError::InvalidFundingRound)
    } else {
        Ok(())
    }
}

/// The outcome of `record_deposit`. `program` is what the program registry
/// reports for `program_id` (`None` when it has no such program); it is
/// only read for a program-specific deposit.
pub open spec fn record_deposit_spec(
    s: FinanceState,
    contract: Bytes32,
    sponsor: Bytes32,
    program_id: Option<Bytes32>,
    program: Option<ProgramStatus>,
    asset: Bytes32,
    amount: i128,
    tx_hash: Bytes32,
    funding_round_id: Option<Bytes32>,
    now: u64,
) -> (Result<DepositRecord, ContractError>, FinanceState) {
    if deposit_precheck(s, program_id, program, amount, funding_round_id, now) is Err {
        (Err(deposit_precheck(s, program_id, program, amount, funding_round_id, now)->Err_0), s)
    } else {
        let c1 = next_counter(s.counter);
        let id = counter_id(c1, now);
        let deposit = DepositRecord {
            id,
            sponsor_id: sponsor,
            program_id,
            deposit_type: if program_id is Some {
                DepositType::ProgramSpecific
            } else {
                DepositType::Unrestricted
            },
            asset,
            amount,
            tx_hash,
            timestamp: now,
            funding_round_id,
        };
        let t = FinanceState { counter: c1, deposits: s.deposits.insert(id, deposit), ..s };
        match program_id {
            None => (Ok(deposit), t),
            Some(pid) => {
                let c2 = next_counter(c1);
                match apply_deposit(ledger_or_empty(s, pid), counter_id(c2, now), asset, amount, contract, now) {
                    None => (Err(ContractError::ArithmeticOverflow), s),
                    Some(l) => (Ok(deposit), FinanceState { counter: c2, ledgers: t.ledgers.insert(pid, l), ..t }),
                }
            },
        }
    }
}

pub open spec fn create_funding_round_spec(
    s: FinanceState,
    admin: Bytes32,
    name: String,
    description: String,
    target_amount: i128,
    asset: Bytes32,
    start_time: u64,
    end_time: u64,
    now: u64,
) -> (Result<FundingRound, ContractError>, FinanceState) {
    if admin_gate(s, admin) is Err {
        (Err(admin_gate(s, admin)->Err_0), s)
    } else if target_amount <= 0 {
        (Err(ContractError::InvalidAmount), s)
    } else if start_time >= end_time {
        (Err(ContractError::InvalidFundingRound), s)
    } else {
        let c1 = next_counter(s.counter);
        let id = counter_id(c1, now);
        let round = FundingRound {
            id,
            name,
            description,
            target_amount,
            asset,
            start_time,
            end_time,
            is_active: true,
            created_at: now,
            created_by: admin,
        };
        (Ok(round), FinanceState { counter: c1, rounds: s.rounds.insert(id, round), ..s })
    }
}

/// The outcome of `record_award`. The award's entry takes the second of two
/// ids minted for it.
pub open spec fn record_award_spec(
    s: FinanceState,
    admin: Bytes32,
    program_id: Bytes32,
    asset: Bytes32,
    amount: i128,
    reference_id: Bytes32,
    now: u64,
) -> (Result<(), ContractError>, FinanceState) {
    if admin_gate(s, admin) is Err {
        (Err(admin_gate(s, admin)->Err_0), s)
    } else if amount <= 0 {
        (Err(ContractError::InvalidAmount), s)
    } else {
        let c2 = next_counter(next_counter(s.counter));
        match apply_award(ledger_or_empty(s, program_id), counter_id(c2, now), asset, amount, reference_id, admin, now) {
            None => (Err(ContractError::ArithmeticOverflow), s),
            Some(l) => (Ok(()), FinanceState { counter: c2, ledgers: s.ledgers.insert(program_id, l), ..s }),
        }
    }
}

pub open spec fn record_disbursement_spec(
    s: FinanceState,
    admin: Bytes32,
    program_id: Bytes32,
    asset: Bytes32,
    amount: i128,
    reference_id: Bytes32,
    now: u64,
) -> (Result<(), ContractError>, FinanceState) {
    if admin_gate(s, admin) is Err {
        (Err(admin_gate(s, admin)->Err_0), s)
    } else if amount <= 0 {
        (Err(ContractError::InvalidAmount), s)
    } else if !s.ledgers.contains_key(program_id) {
        (Err(ContractError::LedgerNotFound), s)
    } else if s.ledgers[program_id].reserved_balance < amount {
        (Err(ContractError::InvalidAmount), s)
    } else {
        let c1 = next_counter(s.counter);
        match apply_disbursement(s.ledgers[program_id], counter_id(c1, now), asset, amount, reference_id, admin, now) {
            None => (Err(ContractError::ArithmeticOverflow), s),
            Some(l) => (Ok(()), FinanceState { counter: c1, ledgers: s.ledgers.insert(program_id, l), ..s }),
        }
    }
}

/// The outcome of `reconcile_treasury`. The actual balance is read from the
/// ledger itself, so a reconciliation records no drift.
pub open spec fn reconcile_spec(
    s: FinanceState,
    admin: Bytes32,
    program_id: Bytes32,
    program: Option<ProgramStatus>,
    now: u64,
) -> (Result<ReconciliationView, ContractError>, FinanceState) {
    if admin_gate(s, admin) is Err {
        (Err(admin_gate(s, admin)->Err_0), s)
    } else if !s.ledgers.contains_key(program_id) {
        (Err(ContractError::LedgerNotFound), s)
    } else if program is None {
        (Err(ContractError::ProgramNotFound), s)
    } else if program != Some(ProgramStatus::Published) && program != Some(ProgramStatus::Closed) {
        (Err(ContractError::ProgramNotPublished), s)
    } else {
        let c1 = next_counter(s.counter);
        let id = counter_id(c1, now);
        let balance = s.ledgers[program_id].current_balance;
        let record = ReconciliationView {
            id,
            program_id,
            status: ReconciliationStatus::Balanced,
            expected_balance: balance,
            actual_balance: balance,
            drift_amount: 0,
            discrepancies: Seq::empty(),
            reconciled_at: now,
            reconciled_by: admin,
        };
        (Ok(record), FinanceState { counter: c1, reconciliations: s.reconciliations.insert(id, record), ..s })
    }
}

/// The outcome of `create_receipt`. `intent` is what the disbursement book
/// reports for `intent_id`; `program` is what the registry reports for the
/// intent's program.
pub open spec fn create_receipt_spec(
    s: FinanceState,
    admin: Bytes32,
    intent_id: Bytes32,
    intent: Option<DisbursementIntent>,
    program: Option<ProgramStatus>,
    tx_hash: Bytes32,
    network: String,
    now: u64,
) -> (Result<PaymentReceipt, ContractError>, FinanceState) {
    if admin_gate(s, admin) is Err {
        (Err(admin_gate(s, admin)->Err_0), s)
    } else if intent is None {
        (Err(ContractError::IntentNotFound), s)
    } else if !(intent->Some_0.status is Executed) || intent->Some_0.executed_at == 0 {
        (Err(ContractError::IntentNotExecutable), s)
    } else if program is None {
        (Err(ContractError::ProgramNotFound), s)
    } else {
        let i = intent->Some_0;
        let c1 = next_counter(s.counter);
        let id = counter_id(c1, now);
        let receipt = PaymentReceipt {
            id,
            intent_id,
            program_id: i.program_id,
            recipient: i.recipient,
            award_id: i.program_id,
            installment: i.installment,
            asset: zero32(),
            amount: i.amount,
            tx_hash,
            network,
            completed_at: i.executed_at,
            receipt_hash: receipt_hash_of(intent_id, tx_hash, i.amount, i.executed_at),
        };
        (Ok(receipt), FinanceState { counter: c1, receipts: s.receipts.insert(id, receipt), ..s })
    }
}

/// Whether a stored receipt still matches its commitment.
pub open spec fn receipt_verifies(r: PaymentReceipt) -> bool {
    receipt_hash_of(r.intent_id, r.tx_hash, r.amount, r.completed_at) == r.receipt_hash
}

/// The finance contract's storage. `address` is the contract's own
/// address, which signs the entries it writes on a sponsor's behalf.
pub struct ScholarshipFinanceContract {
    address: Bytes32,
    admin: Option<Bytes32>,
    network_id: Bytes32,
    counter: u64,
    deposits: Table<Bytes32, DepositRecord>,
    rounds: Table<Bytes32, FundingRound>,
    ledgers: Table<Bytes32, ProgramLedger>,
    reconciliations: Table<Bytes32, ReconciliationRecord>,
    receipts: Table<Bytes32, PaymentReceipt>,
}

impl ScholarshipFinanceContract {
    pub closed spec fn wf(&self) -> bool {
        &&& self.deposits.wf()
        &&& self.rounds.wf()
        &&& self.ledgers.wf()
        &&& self.reconciliations.wf()
        &&& self.receipts.wf()
    }

    pub closed spec fn view(&self) -> FinanceState {
        FinanceState {
            admin: self.admin,
            network_id: self.network_id,
            counter: self.counter,
            deposits: self.deposits.view(),
            rounds: self.rounds.view(),
            ledgers: self.ledgers.view().map_values(|l: ProgramLedger| l@),
            reconciliations: self.reconciliations.view().map_values(|r: ReconciliationRecord| r@),
            receipts: self.receipts.view(),
        }
    }

    /// The contract's own address.
    pub closed spec fn address(&self) -> Bytes32 {
        self.address
    }

    pub fn new(address: Bytes32) -> (c: Self)
        ensures
            c.wf(),
            c.address() == address,
            c@.admin is None,
            c@.ledgers == Map::<Bytes32, LedgerView>::empty(),
            c@.deposits == Map::<Bytes32, DepositRecord>::empty(),
    {
        let c = ScholarshipFinanceContract {
            address,
            admin: None,
            network_id: new_zero32(),
            counter: 0,
            deposits: Table::new(),
            rounds: Table::new(),
            ledgers: Table::new(),
            reconciliations: Table::new(),
            receipts: Table::new(),
        };
        proof {
            assert(c@.ledgers =~= Map::<Bytes32, LedgerView>::empty());
        }
        c
    }

    pub fn initialize(&mut self, admin: Bytes32, network_id: Bytes32) -> (r: Result<(), ContractError>)
        requires
            old(self).wf(),
        ensures
            final(self).wf(),
            final(self).address() == old(self).address(),
            old(self)@.admin is Some ==> r == Err::<(), ContractError>(ContractError::AlreadyInitialized)
                && final(self)@ == old(self)@,
            old(self)@.admin is None ==> r == Ok::<(), ContractError>(()) && final(self)@ == (FinanceState {
                admin: Some(admin),
                network_id,
                counter: 0,
                ..old(self)@
            }),
    {
        if self.admin.is_some() {
            return Err(ContractError::AlreadyInitialized);
        }
        self.admin = Some(admin);
        self.network_id = network_id;
        self.counter = 0;
        Ok(())
    }

    fn require_admin(&self, caller: &Bytes32) -> (r: Result<(), ContractError>)
        ensures
            r == admin_gate(self@, *caller),
    {
        match &self.admin {
            None => Err(ContractError::NotInitialized),
            Some(a) => if bytes32_eq(a, caller) {
                Ok(())
            } else {
                Err(ContractError::NotAdmin)
            },
        }
    }

    fn next_counter_value(&self) -> (n: u64)
        ensures
            n == next_counter(self@.counter),
    {
        match self.counter.checked_add(1) {
            Some(n) => n,
            None => 1,
        }
    }

    fn ledger_copy(&self, program_id: &Bytes32) -> (l: ProgramLedger)
        requires
            self.wf(),
        ensures
            l@ == ledger_or_empty(self@, *program_id),
    {
        match self.ledgers.get(program_id) {
            Some(l) => l.clone(),
            None => {
                let l = ProgramLedger {
                    program_id: *program_id,
                    sponsor_id: new_zero32(),
                    currency: new_xlm_code(),
                    entries: Vec::new(),
                    total_deposits: 0,
                    total_withdrawals: 0,
                    total_awards: 0,
                    total_disbursements: 0,
                    total_refunds: 0,
                    total_recoveries: 0,
                    total_fees: 0,
                    current_balance: 0,
                    reserved_balance: 0,
                    available_balance: 0,
                    last_updated: 0,
                };
                proof {
                    assert(l@.entries =~= Seq::<LedgerEntry>::empty());
                }
                l
            },
        }
    }

    fn store_ledger(&mut self, program_id: Bytes32, l: ProgramLedger)
        requires
            old(self).wf(),
        ensures
            final(self).wf(),
            final(self).address() == old(self).address(),
            final(self)@ == (FinanceState { ledgers: old(self)@.ledgers.insert(program_id, l@), ..old(self)@ }),
    {
        let ghost before = self@;
        let ghost lv = l@;
        self.ledgers.insert(program_id, l);
        proof {
            assert(self@.ledgers =~= before.ledgers.insert(program_id, lv));
        }
    }

    /// Records a sponsor deposit, to a program's ledger or to the
    /// unrestricted pool. Authorization is the sponsor's own signature.
    pub fn record_deposit(
        &mut self,
        env: &Env,
        sponsor: Bytes32,
        program_id: Option<Bytes32>,
        program: Option<ProgramStatus>,
        asset: Bytes32,
        amount: i128,
        tx_hash: Bytes32,
        funding_round_id: Option<Bytes32>,
        now: u64,
    ) -> (r: Result<DepositRecord, ContractError>)
        requires
            old(self).wf(),
        ensures
            final(self).wf(),
            final(self).address() == old(self).address(),
            (r, final(self)@) == record_deposit_spec(
                old(self)@,
                old(self).address(),
                sponsor,
                program_id,
                program,
                asset,
                amount,
                tx_hash,
                funding_round_id,
                now,
            ),
    {
        if amount <= 0 {
            return Err(ContractError::InvalidAmount);
        }
        if program_id.is_some() {
            match program {
                None => return Err(ContractError::ProgramNotFound),
                Some(ProgramStatus::Published) => {},
                Some(_) => return Err(ContractError::ProgramNotPublished),
            }
        }
        match funding_round_id {
            Some(rid) => {
                let round = match self.rounds.get(&rid) {
                    Some(r) => r,
                    None => return Err(ContractError::FundingRoundNotFound),
                };
                if !round.is_active {
                    return Err(ContractError::InvalidFundingRound);
                }
                if now < round.start_time || now > round.end_time {
                    return Err(ContractError::InvalidFundingRound);
                }
            },
            None => {},
        }
        let c1 = self.next_counter_value();
        let id = derive_counter_id(env, c1, now);
        let deposit = DepositRecord {
            id,
            sponsor_id: sponsor,
            program_id,
            deposit_type: match program_id {
                Some(_) => DepositType::ProgramSpecific,
                None => DepositType::Unrestricted,
            },
            asset,
            amount,
            tx_hash,
            timestamp: now,
            funding_round_id,
        };
        let pid = match program_id {
            None => {
                self.counter = c1;
                self.deposits.insert(id, deposit);
                return Ok(deposit);
            },
            Some(pid) => pid,
        };
        let mut l = self.ledger_copy(&pid);
        let c2 = if c1 == u64::MAX {
            1
        } else {
            c1 + 1
        };
        let entry_id = derive_counter_id(env, c2, now);
        match update_ledger_on_deposit(&mut l, entry_id, asset, amount, self.address, now) {
            Err(e) => return Err(e),
            Ok(()) => {},
        }
        self.counter = c2;
        self.deposits.insert(id, deposit);
        self.store_ledger(pid, l);
        Ok(deposit)
    }

    /// Opens a funding round between `start_time` and `end_time`.
    pub fn create_funding_round(
        &mut self,
        env: &Env,
        admin: Bytes32,
        name: String,
        description: String,
        target_amount: i128,
        asset: Bytes32,
        start_time: u64,
        end_time: u64,
        now: u64,
    ) -> (r: Result<FundingRound, ContractError>)
        requires
            old(self).wf(),
        ensures
            final(self).wf(),
            final(self).address() == old(self).address(),
            (r, final(self)@) == create_funding_round_spec(
                old(self)@,
                admin,
                name,
                description,
                target_amount,
                asset,
                start_time,
                end_time,
                now,
            ),
    {
        match self.require_admin(&admin) {
            Err(e) => return Err(e),
            Ok(()) => {},
        }
        if target_amount <= 0 {
            return Err(ContractError::InvalidAmount);
        }
        if start_time >= end_time {
            return Err(ContractError::InvalidFundingRound);
        }
        let c1 = self.next_counter_value();
        let id = derive_counter_id(env, c1, now);
        let round = FundingRound {
            id,
            name,
            description,
            target_amount,
            asset,
            start_time,
            end_time,
            is_active: true,
            created_at: now,
            created_by: admin,
        };
        self.counter = c1;
        self.rounds.insert(id, round.clone());
        Ok(round)
    }

    pub fn get_deposit(&self, deposit_id: Bytes32) -> (r: Result<DepositRecord, ContractError>)
        requires
            self.wf(),
        ensures
            r == if self@.deposits.contains_key(deposit_id) {
                Ok::<DepositRecord, ContractError>(self@.deposits[deposit_id])
            } else {
                Err(ContractError::DepositNotFound)
            },
    {
        match self.deposits.get(&deposit_id) {
            Some(d) => Ok(*d),
            None => Err(ContractError::DepositNotFound),
        }
    }

    pub fn get_funding_round(&self, round_id: Bytes32) -> (r: Result<FundingRound, ContractError>)
        requires
            self.wf(),
        ensures
            r == if self@.rounds.contains_key(round_id) {
                Ok::<FundingRound, ContractError>(self@.rounds[round_id])
            } else {
                Err(ContractError::FundingRoundNotFound)
            },
    {
        match self.rounds.get(&round_id) {
            Some(r) => Ok(r.clone()),
            None => Err(ContractError::FundingRoundNotFound),
        }
    }

    /// Reserves an award in a program's ledger, creating the ledger if the
    /// program has none yet.
    pub fn record_award(
        &mut self,
        env: &Env,
        admin: Bytes32,
        program_id: Bytes32,
        asset: Bytes32,
        amount: i128,
        reference_id: Bytes32,
        now: u64,
    ) -> (r: Result<(), ContractError>)
        requires
            old(self).wf(),
        ensures
            final(self).wf(),
            final(self).address() == old(self).address(),
            (r, final(self)@) == record_award_spec(old(self)@, admin, program_id, asset, amount, reference_id, now),
    {
        match self.require_admin(&admin) {
            Err(e) => return Err(e),
            Ok(()) => {},
        }
        if amount <= 0 {
            return Err(ContractError::InvalidAmount);
        }
        let mut l = self.ledger_copy(&program_id);
        let c1 = self.next_counter_value();
        let c2 = if c1 == u64::MAX {
            1
        } else {
            c1 + 1
        };
        let reserved = match l.reserved_balance.checked_add(amount) {
            Some(v) => v,
            None => return Err(ContractError::ArithmeticOverflow),
        };
        let available = match l.available_balance.checked_sub(amount) {
            Some(v) => v,
            None => return Err(ContractError::ArithmeticOverflow),
        };
        let total_awards = match l.total_awards.checked_add(amount) {
            Some(v) => v,
            None => return Err(ContractError::ArithmeticOverflow),
        };
        let entry_id = derive_counter_id(env, c2, now);
        l.entries.push(
            LedgerEntry {
                id: entry_id,
                program_id: l.program_id,
                entry_type: LedgerEntryType::Award,
                asset,
                amount,
                balance_after: l.current_balance,
                reference_id: Some(reference_id),
                reference_type: Some(ReferenceKind::Award),
                timestamp: now,
                created_by: admin,
            },
        );
        l.total_awards = total_awards;
        l.reserved_balance = reserved;
        l.available_balance = available;
        l.last_updated = now;
        self.counter = c2;
        self.store_ledger(program_id, l);
        Ok(())
    }

    /// Pays a disbursement out of a program's reserved funds.
    pub fn record_disbursement(
        &mut self,
        env: &Env,
        admin: Bytes32,
        program_id: Bytes32,
        asset: Bytes32,
        amount: i128,
        reference_id: Bytes32,
        now: u64,
    ) -> (r: Result<(), ContractError>)
        requires
            old(self).wf(),
        ensures
            final(self).wf(),
            final(self).address() == old(self).address(),
            (r, final(self)@) == record_disbursement_spec(
                old(self)@,
                admin,
                program_id,
                asset,
                amount,
                reference_id,
                now,
            ),
    {
        match self.require_admin(&admin) {
            Err(e) => return Err(e),
            Ok(()) => {},
        }
        if amount <= 0 {
            return Err(ContractError::InvalidAmount);
        }
        let mut l = match self.ledgers.get(&program_id) {
            Some(l) => l.clone(),
            None => return Err(ContractError::LedgerNotFound),
        };
        if l.reserved_balance < amount {
            return Err(ContractError::InvalidAmount);
        }
        let reserved = l.reserved_balance - amount;
        let current = match l.current_balance.checked_sub(amount) {
            Some(v) => v,
            None => return Err(ContractError::ArithmeticOverflow),
        };
        let total = match l.total_disbursements.checked_add(amount) {
            Some(v) => v,
            None => return Err(ContractError::ArithmeticOverflow),
        };
        let c1 = self.next_counter_value();
        let entry_id = derive_counter_id(env, c1, now);
        l.entries.push(
            LedgerEntry {
                id: entry_id,
                program_id: l.program_id,
                entry_type: LedgerEntryType::Disbursement,
                asset,
                amount,
                balance_after: current,
                reference_id: Some(reference_id),
                reference_type: Some(ReferenceKind::Disbursement),
                timestamp: now,
                created_by: admin,
            },
        );
        l.total_disbursements = total;
        l.reserved_balance = reserved;
        l.current_balance = current;
        l.last_updated = now;
        self.counter = c1;
        self.store_ledger(program_id, l);
        Ok(())
    }

    pub fn get_program_ledger(&self, program_id: Bytes32) -> (r: Result<ProgramLedger, ContractError>)
        requires
            self.wf(),
        ensures
            r matches Ok(x) ==> self@.ledgers.contains_key(program_id) && x@ == self@.ledgers[program_id],
            r matches Err(e) ==> !self@.ledgers.contains_key(program_id) && e == ContractError::LedgerNotFound,
    {
        match self.ledgers.get(&program_id) {
            Some(l) => Ok(l.clone()),
            None => Err(ContractError::LedgerNotFound),
        }
    }

    /// Reconciles a published or closed program's treasury against its
    /// ledger. `program` is what the program registry reports for it.
    pub fn reconcile_treasury(
        &mut self,
        env: &Env,
        admin: Bytes32,
        program_id: Bytes32,
        program: Option<ProgramStatus>,
        now: u64,
    ) -> (r: Result<ReconciliationRecord, ContractError>)
        requires
            old(self).wf(),
        ensures
            final(self).wf(),
            final(self).address() == old(self).address(),
            final(self)@ == reconcile_spec(old(self)@, admin, program_id, program, now).1,
            r matches Ok(x) ==> reconcile_spec(old(self)@, admin, program_id, program, now).0 == Ok::<
                ReconciliationView,
                ContractError,
            >(x@),
            r matches Err(e) ==> reconcile_spec(old(self)@, admin, program_id, program, now).0 == Err::<
                ReconciliationView,
                ContractError,
            >(e),
    {
        match self.require_admin(&admin) {
            Err(e) => return Err(e),
            Ok(()) => {},
        }
        let balance = match self.ledgers.get(&program_id) {
            Some(l) => l.current_balance,
            None => return Err(ContractError::LedgerNotFound),
        };
        match program {
            None => return Err(ContractError::ProgramNotFound),
            Some(ProgramStatus::Published) => {},
            Some(ProgramStatus::Closed) => {},
            Some(_) => return Err(ContractError::ProgramNotPublished),
        }
        let expected = balance;
        let actual = balance;
        let drift = expected - actual;
        let mut discrepancies: Vec<Discrepancy> = Vec::new();
        let mut status = ReconciliationStatus::Balanced;
        if drift != 0 {
            status = if drift < 0 {
                ReconciliationStatus::InsolvencyRisk
            } else {
                ReconciliationStatus::DriftDetected
            };
            discrepancies.push(
                Discrepancy {
                    entry_id: new_zero32(),
                    expected,
                    actual,
                    description: "Balance drift detected".to_string(),
                },
            );
        }
        let c1 = self.next_counter_value();
        let id = derive_counter_id(env, c1, now);
        let record = ReconciliationRecord {
            id,
            program_id,
            status,
            expected_balance: expected,
            actual_balance: actual,
            drift_amount: drift,
            discrepancies,
            reconciled_at: now,
            reconciled_by: admin,
        };
        proof {
            assert(record@.discrepancies =~= Seq::<Discrepancy>::empty());
        }
        self.counter = c1;
        let ghost before = self@;
        self.reconciliations.insert(id, record.clone());
        proof {
            assert(self@.reconciliations =~= before.reconciliations.insert(id, record@));
        }
        Ok(record)
    }

    pub fn get_reconciliation(&self, reconciliation_id: Bytes32) -> (r: Result<ReconciliationRecord, ContractError>)
        requires
            self.wf(),
        ensures
            r matches Ok(x) ==> self@.reconciliations.contains_key(reconciliation_id) && x@
                == self@.reconciliations[reconciliation_id],
            r matches Err(e) ==> !self@.reconciliations.contains_key(reconciliation_id) && e
                == ContractError::ReconciliationFailed,
    {
        match self.reconciliations.get(&reconciliation_id) {
            Some(r) => Ok(r.clone()),
            None => Err(ContractError::ReconciliationFailed),
        }
    }

    /// Issues a receipt for an executed disbursement. `intent` is what the
    /// disbursement book reports for `intent_id`, and `program` what the
    /// registry reports for the intent's program.
    pub fn create_receipt(
        &mut self,
        env: &Env,
        admin: Bytes32,
        intent_id: Bytes32,
        intent: Option<DisbursementIntent>,
        program: Option<ProgramStatus>,
        tx_hash: Bytes32,
        network: String,
        now: u64,
    ) -> (r: Result<PaymentReceipt, ContractError>)
        requires
            old(self).wf(),
        ensures
            final(self).wf(),
            final(self).address() == old(self).address(),
            (r, final(self)@) == create_receipt_spec(
                old(self)@,
                admin,
                intent_id,
                intent,
                program,
                tx_hash,
                network,
                now,
            ),
    {
        match self.require_admin(&admin) {
            Err(e) => return Err(e),
            Ok(()) => {},
        }
        let i = match intent {
            Some(i) => i,
            None => return Err(ContractError::IntentNotFound),
        };
        match i.status {
            IntentStatus::Executed => {},
            _ => return Err(ContractError::IntentNotExecutable),
        }
        if i.executed_at == 0 {
            return Err(ContractError::IntentNotExecutable);
        }
        if program.is_none() {
            return Err(ContractError::ProgramNotFound);
        }
        let c1 = self.next_counter_value();
        let id = derive_counter_id(env, c1, now);
        let receipt_hash = compute_receipt_hash(env, &intent_id, &tx_hash, i.amount, i.executed_at);
        let receipt = PaymentReceipt {
            id,
            intent_id,
            program_id: i.program_id,
            recipient: i.recipient,
            award_id: i.program_id,
            installment: i.installment,
            asset: new_zero32(),
            amount: i.amount,
            tx_hash,
            network,
            completed_at: i.executed_at,
            receipt_hash,
        };
        self.counter = c1;
        self.receipts.insert(id, receipt.clone());
        Ok(receipt)
    }

    pub fn get_receipt(&self, receipt_id: Bytes32) -> (r: Result<PaymentReceipt, ContractError>)
        requires
            self.wf(),
        ensures
            r == if self@.receipts.contains_key(receipt_id) {
                Ok::<PaymentReceipt, ContractError>(self@.receipts[receipt_id])
            } else {
                Err(ContractError::ReceiptNotFound)
            },
    {
        match self.receipts.get(&receipt_id) {
            Some(r) => Ok(r.clone()),
            None => Err(ContractError::ReceiptNotFound),
        }
    }

    /// Recomputes a stored receipt's commitment and compares.
    pub fn verify_receipt(&self, env: &Env, receipt_id: Bytes32) -> (r: Result<bool, ContractError>)
        requires
            self.wf(),
        ensures
            r == if self@.receipts.contains_key(receipt_id) {
                Ok::<bool, ContractError>(receipt_verifies(self@.receipts[receipt_id]))
            } else {
                Err(ContractError::ReceiptNotFound)
            },
    {
        let receipt = match self.receipts.get(&receipt_id) {
            Some(r) => r,
            None => return Err(ContractError::ReceiptNotFound),
        };
        let computed = compute_receipt_hash(env, &receipt.intent_id, &receipt.tx_hash, receipt.amount, receipt.completed_at);
        Ok(bytes32_eq(&computed, &receipt.receipt_hash))
    }

    pub fn version() -> (v: u32)
        ensures
            v == CONTRACT_VERSION,
    {
        CONTRACT_VERSION
    }
}

/// A new ledger is consistent, and every deposit, award and disbursement
/// keeps it so.
pub proof fn lemma_ledger_stays_consistent(
    l: LedgerView,
    entry_id: Bytes32,
    asset: Bytes32,
    amount: i128,
    reference_id: Bytes32,
    by: Bytes32,
    now: u64,
    program_id: Bytes32,
)
    requires
        ledger_consistent(l),
    ensures
        ledger_consistent(empty_ledger(program_id)),
        apply_deposit(l, entry_id, asset, amount, by, now) matches Some(m) ==> ledger_consistent(m),
        apply_award(l, entry_id, asset, amount, reference_id, by, now) matches Some(m) ==> ledger_consistent(m),
        apply_disbursement(l, entry_id, asset, amount, reference_id, by, now) matches Some(m) ==> ledger_consistent(
            m,
        ),
{
}

/// A ledger's history is append-only: each posting keeps every earlier
/// entry and adds exactly one.
pub proof fn lemma_entries_are_append_only(
    l: LedgerView,
    entry_id: Bytes32,
    asset: Bytes32,
    amount: i128,
    reference_id: Bytes32,
    by: Bytes32,
    now: u64,
)
    ensures
        apply_deposit(l, entry_id, asset, amount, by, now) matches Some(m) ==> m.entries.len() == l.entries.len() + 1
            && m.entries.take(l.entries.len() as int) == l.entries,
        apply_award(l, entry_id, asset, amount, reference_id, by, now) matches Some(m) ==> m.entries.len()
            == l.entries.len() + 1 && m.entries.take(l.entries.len() as int) == l.entries,
        apply_disbursement(l, entry_id, asset, amount, reference_id, by, now) matches Some(m) ==> m.entries.len()
            == l.entries.len() + 1 && m.entries.take(l.entries.len() as int) == l.entries,
{
    if let Some(m) = apply_deposit(l, entry_id, asset, amount, by, now) {
        assert(m.entries.take(l.entries.len() as int) =~= l.entries);
    }
    if let Some(m) = apply_award(l, entry_id, asset, amount, reference_id, by, now) {
        assert(m.entries.take(l.entries.len() as int) =~= l.entries);
    }
    if let Some(m) = apply_disbursement(l, entry_id, asset, amount, reference_id, by, now) {
        assert(m.entries.take(l.entries.len() as int) =~= l.entries);
    }
}

/// A disbursement never pays out more than was reserved: reserved funds
/// that were not negative stay that way.
pub proof fn lemma_reserve_never_overdrawn(
    s: FinanceState,
    admin: Bytes32,
    program_id: Bytes32,
    asset: Bytes32,
    amount: i128,
    reference_id: Bytes32,
    now: u64,
)
    requires
        s.ledgers.contains_key(program_id),
        s.ledgers[program_id].reserved_balance >= 0,
        record_disbursement_spec(s, admin, program_id, asset, amount, reference_id, now).0 is Ok,
    ensures
        record_disbursement_spec(s, admin, program_id, asset, amount, reference_id, now).1.ledgers[program_id].reserved_balance
            >= 0,
{
}

/// Every receipt the contract issues verifies against its own commitment.
pub proof fn lemma_issued_receipts_verify(
    s: FinanceState,
    admin: Bytes32,
    intent_id: Bytes32,
    intent: Option<DisbursementIntent>,
    program: Option<ProgramStatus>,
    tx_hash: Bytes32,
    network: String,
    now: u64,
)
    requires
        create_receipt_spec(s, admin, intent_id, intent, program, tx_hash, network, now).0 is Ok,
    ensures
        ({
            let (r, t) = create_receipt_spec(s, admin, intent_id, intent, program, tx_hash, network, now);
            let id = r->Ok_0.id;
            t.receipts.contains_key(id) && receipt_verifies(t.receipts[id])
        }),
{
}

} // verus!
