//! Settlement reconciliation for off-chain payments.
//!
//! A backend opens an intent for a payment it expects, reports the
//! transaction it saw on chain, and asks for a verdict once that transaction
//! is final. A verdict is written once: reprocessing reports it and changes
//! nothing. A disagreement between the intent and the chain, or a payment
//! that never arrived, raises the running alert count, which only an
//! explicit resolution lowers. Callers see a settled amount only for a
//! reconciled intent.
use vstd::prelude::*;
use crate::table::{Bytes32, Table, bytes32_eq, bytes32_is_zero, is_zero32, new_zero32, zero32};
use crate::outbox::ContractError;

verus! {

/// Largest finality threshold an intent may ask for: one day of ledgers.
pub const MAX_FINALITY: u32 = 17_280;

/// How many intents may be tracked at once.
pub const MAX_TRACKED_INTENTS: u64 = 10_000;

#[derive(Copy, Clone, Debug, PartialEq, Eq, Structural)]
pub enum SettlementState {
    /// Opened, possibly observed, not yet decided.
    Pending,
    /// The chain agrees with the intent, or an operator signed off.
    Reconciled,
    /// The chain shows a different amount.
    Mismatched,
    /// No transaction arrived in time.
    Expired,
}

/// The states that need a human.
pub open spec fn alerts_on(state: SettlementState) -> bool {
    state is Mismatched || state is Expired
}

impl SettlementState {
    pub fn is_alerting(&self) -> (b: bool)
        ensures
            b == alerts_on(*self),
    {
        match self {
            SettlementState::Mismatched => true,
            SettlementState::Expired => true,
            _ => false,
        }
    }
}

/// One expected payment and what was seen of it on chain. `observed_ledger`
/// is zero until a transaction is reported.
#[derive(Copy, Clone, Debug, PartialEq, Eq)]
pub struct SettlementIntent {
    pub intent_id: Bytes32,
    pub source: Bytes32,
    pub correlation_id: Bytes32,
    pub amount: i128,
    pub required_finality: u32,
    pub observed_tx_hash: Bytes32,
    pub observed_ledger: u32,
    pub observed_amount: i128,
    pub state: SettlementState,
    pub resolution_hash: Bytes32,
}

/// What a frontend may show: `settled_amount` is zero unless reconciled.
#[derive(Copy, Clone, Debug, PartialEq, Eq)]
pub struct SettlementView {
    pub state: SettlementState,
    pub settled_amount: i128,
    pub observed_amount: i128,
}

/// The abstract state of the settlement book.
pub struct SettlementLedger {
    pub intents: Map<Bytes32, SettlementIntent>,
    pub alerts: u32,
}

/// The ids of the intents in an alerting state.
pub open spec fn alerting(intents: Map<Bytes32, SettlementIntent>) -> Set<Bytes32> {
    intents.dom().filter(|k: Bytes32| alerts_on(intents[k].state))
}

/// The outcome of `open`.
pub open spec fn open_spec(
    b: SettlementLedger,
    intent_id: Bytes32,
    source: Bytes32,
    correlation_id: Bytes32,
    amount: i128,
    required_finality: u32,
) -> (Result<(), ContractError>, SettlementLedger) {
    if amount <= 0 {
        (Err(ContractError::InvalidAmount), b)
    } else if required_finality == 0 || required_finality > MAX_FINALITY {
        (Err(ContractError::InvalidFinality), b)
    } else if b.intents.contains_key(intent_id) {
        (Err(ContractError::IntentExists), b)
    } else if b.intents.dom().len() >= MAX_TRACKED_INTENTS {
        (Err(ContractError::BacklogFull), b)
    } else {
        let intent = SettlementIntent {
            intent_id,
            source,
            correlation_id,
            amount,
            required_finality,
            observed_tx_hash: zero32(),
            observed_ledger: 0,
            observed_amount: 0,
            state: SettlementState::Pending,
            resolution_hash: zero32(),
        };
        (Ok(()), SettlementLedger { intents: b.intents.insert(intent_id, intent), ..b })
    }
}

/// The outcome of `observe`: the first transaction reported for an intent
/// is the only one it will ever carry.
pub open spec fn observe_spec(
    b: SettlementLedger,
    intent_id: Bytes32,
    tx_hash: Bytes32,
    ledger: u32,
    current_ledger: u32,
) -> (Result<(), ContractError>, SettlementLedger) {
    if !b.intents.contains_key(intent_id) {
        (Err(ContractError::IntentNotFound), b)
    } else if ledger == 0 || ledger > current_ledger {
        (Err(ContractError::NotFinal), b)
    } else if is_zero32(tx_hash) {
        (Err(ContractError::EmptyCommitment), b)
    } else {
        let intent = b.intents[intent_id];
        if intent.observed_ledger != 0 {
            if intent.observed_tx_hash == tx_hash && intent.observed_ledger == ledger {
                (Ok(()), b)
            } else {
                (Err(ContractError::AlreadyObserved), b)
            }
        } else if !(intent.state is Pending) {
            (Err(ContractError::InvalidState), b)
        } else {
            let updated = SettlementIntent { observed_tx_hash: tx_hash, observed_ledger: ledger, ..intent };
            (Ok(()), SettlementLedger { intents: b.intents.insert(intent_id, updated), ..b })
        }
    }
}

/// An observed transaction is final once `required_finality` ledgers have
/// closed after the one it is in.
pub open spec fn is_final(intent: SettlementIntent, current_ledger: u32) -> bool {
    intent.observed_ledger != 0 && current_ledger >= intent.observed_ledger + intent.required_finality
}

/// The outcome of `reconcile`. A decided intent reports its verdict and is
/// left as it is.
pub open spec fn reconcile_spec(
    b: SettlementLedger,
    intent_id: Bytes32,
    observed_amount: i128,
    current_ledger: u32,
) -> (Result<SettlementState, ContractError>, SettlementLedger) {
    if !b.intents.contains_key(intent_id) {
        (Err(ContractError::IntentNotFound), b)
    } else {
        let intent = b.intents[intent_id];
        if !(intent.state is Pending) {
            (Ok(intent.state), b)
        } else if !is_final(intent, current_ledger) {
            (Err(ContractError::NotFinal), b)
        } else if observed_amount == intent.amount {
            let updated = SettlementIntent { observed_amount, state: SettlementState::Reconciled, ..intent };
            (Ok(SettlementState::Reconciled), SettlementLedger { intents: b.intents.insert(intent_id, updated), ..b })
        } else {
            let updated = SettlementIntent { observed_amount, state: SettlementState::Mismatched, ..intent };
            (
                Ok(SettlementState::Mismatched),
                SettlementLedger { intents: b.intents.insert(intent_id, updated), alerts: (b.alerts + 1) as u32 },
            )
        }
    }
}

/// The outcome of `expire`: a pending intent whose payment never came.
pub open spec fn expire_spec(b: SettlementLedger, intent_id: Bytes32) -> (Result<(), ContractError>, SettlementLedger) {
    if !b.intents.contains_key(intent_id) {
        (Err(ContractError::IntentNotFound), b)
    } else if !(b.intents[intent_id].state is Pending) {
        (Err(ContractError::InvalidState), b)
    } else {
        let updated = SettlementIntent { state: SettlementState::Expired, ..b.intents[intent_id] };
        (Ok(()), SettlementLedger { intents: b.intents.insert(intent_id, updated), alerts: (b.alerts + 1) as u32 })
    }
}

/// The outcome of `resolve`: an operator signs off on a mismatch, committing
/// to the reason by hash.
pub open spec fn resolve_spec(b: SettlementLedger, intent_id: Bytes32, resolution_hash: Bytes32) -> (
    Result<(), ContractError>,
    SettlementLedger,
) {
    if !b.intents.contains_key(intent_id) {
        (Err(ContractError::IntentNotFound), b)
    } else if is_zero32(resolution_hash) {
        (Err(ContractError::EmptyCommitment), b)
    } else if !(b.intents[intent_id].state is Mismatched) {
        (Err(ContractError::InvalidState), b)
    } else {
        let updated = SettlementIntent {
            state: SettlementState::Reconciled,
            resolution_hash,
            ..b.intents[intent_id]
        };
        (Ok(()), SettlementLedger { intents: b.intents.insert(intent_id, updated), alerts: (b.alerts - 1) as u32 })
    }
}

/// The outcome of `archive`: only a reconciled intent may be dropped.
pub open spec fn archive_spec(b: SettlementLedger, intent_id: Bytes32) -> (Result<(), ContractError>, SettlementLedger) {
    if !b.intents.contains_key(intent_id) {
        (Err(ContractError::IntentNotFound), b)
    } else if !(b.intents[intent_id].state is Reconciled) {
        (Err(ContractError::InvalidState), b)
    } else {
        (Ok(()), SettlementLedger { intents: b.intents.remove(intent_id), ..b })
    }
}

/// What a frontend is shown for an intent.
pub open spec fn view_of(intent: SettlementIntent) -> SettlementView {
    SettlementView {
        state: intent.state,
        settled_amount: if intent.state is Reconciled { intent.observed_amount } else { 0 },
        observed_amount: intent.observed_amount,
    }
}

/// The stored intents and the alert count.
pub struct SettlementBook {
    intents: Table<Bytes32, SettlementIntent>,
    alerts: u32,
}

proof fn lemma_alerting_insert(m: Map<Bytes32, SettlementIntent>, k: Bytes32, v: SettlementIntent)
    requires
        m.dom().finite(),
    ensures
        alerting(m).finite(),
        alerting(m).len() <= m.dom().len(),
        alerting(m.insert(k, v)) == if alerts_on(v.state) {
            alerting(m).insert(k)
        } else {
            alerting(m).remove(k)
        },
{
    m.dom().lemma_len_filter(|x: Bytes32| alerts_on(m[x].state));
    let n = m.insert(k, v);
    if alerts_on(v.state) {
        assert(alerting(n) =~= alerting(m).insert(k));
    } else {
        assert(alerting(n) =~= alerting(m).remove(k));
    }
}

proof fn lemma_alerting_remove(m: Map<Bytes32, SettlementIntent>, k: Bytes32)
    requires
        m.contains_key(k),
        !alerts_on(m[k].state),
    ensures
        alerting(m.remove(k)) == alerting(m),
{
    assert(alerting(m.remove(k)) =~= alerting(m));
}

impl SettlementBook {
    /// The alert count is the number of alerting intents, and no more than
    /// `MAX_TRACKED_INTENTS` intents are stored.
    pub closed spec fn wf(&self) -> bool {
        &&& self.intents.wf()
        &&& self.intents.view().dom().finite()
        &&& self.alerts == alerting(self.intents.view()).len()
        &&& self.intents.view().dom().len() <= MAX_TRACKED_INTENTS
    }

    pub closed spec fn view(&self) -> SettlementLedger {
        SettlementLedger { intents: self.intents.view(), alerts: self.alerts }
    }

    pub fn new() -> (b: Self)
        ensures
            b.wf(),
            b@.intents == Map::<Bytes32, SettlementIntent>::empty(),
            b@.alerts == 0,
    {
        let b = SettlementBook { intents: Table::new(), alerts: 0 };
        proof {
            assert(alerting(b.intents.view()) =~= Set::<Bytes32>::empty());
        }
        b
    }

    /// The running alert count is the number of intents that need a human.
    pub proof fn lemma_alerts_are_counted(&self)
        requires
            self.wf(),
        ensures
            self@.intents.dom().finite(),
            self@.alerts == alerting(self@.intents).len(),
            self@.intents.dom().len() <= MAX_TRACKED_INTENTS,
    {
    }

    /// Stores `intent` under `id` and adjusts the alert count to match.
    fn store(&mut self, id: Bytes32, intent: SettlementIntent, alerts: u32)
        requires
            old(self).wf(),
            old(self)@.intents.contains_key(id),
            alerts == alerting(old(self)@.intents.insert(id, intent)).len(),
        ensures
            final(self).wf(),
            final(self)@ == (SettlementLedger { intents: old(self)@.intents.insert(id, intent), alerts }),
    {
        proof {
            assert(self.intents.view().insert(id, intent).dom() =~= self.intents.view().dom());
        }
        self.intents.insert(id, intent);
        self.alerts = alerts;
    }

    pub fn open(
        &mut self,
        intent_id: Bytes32,
        source: Bytes32,
        correlation_id: Bytes32,
        amount: i128,
        required_finality: u32,
    ) -> (r: Result<(), ContractError>)
        requires
            old(self).wf(),
        ensures
            final(self).wf(),
            (r, final(self)@) == open_spec(old(self)@, intent_id, source, correlation_id, amount, required_finality),
    {
        if amount <= 0 {
            return Err(ContractError::InvalidAmount);
        }
        if required_finality == 0 || required_finality > MAX_FINALITY {
            return Err(ContractError::InvalidFinality);
        }
        if self.intents.contains_key(&intent_id) {
            return Err(ContractError::IntentExists);
        }
        let n = self.intents.len();
        if n as u64 >= MAX_TRACKED_INTENTS {
            return Err(ContractError::BacklogFull);
        }
        let intent = SettlementIntent {
            intent_id,
            source,
            correlation_id,
            amount,
            required_finality,
            observed_tx_hash: new_zero32(),
            observed_ledger: 0,
            observed_amount: 0,
            state: SettlementState::Pending,
            resolution_hash: new_zero32(),
        };
        proof {
            lemma_alerting_insert(self.intents.view(), intent_id, intent);
            assert(!alerting(self.intents.view()).contains(intent_id));
            assert(alerting(self.intents.view()).remove(intent_id) =~= alerting(self.intents.view()));
        }
        self.intents.insert(intent_id, intent);
        Ok(())
    }

    pub fn observe(&mut self, intent_id: Bytes32, tx_hash: Bytes32, ledger: u32, current_ledger: u32) -> (r: Result<
        (),
        ContractError,
    >)
        requires
            old(self).wf(),
        ensures
            final(self).wf(),
            (r, final(self)@) == observe_spec(old(self)@, intent_id, tx_hash, ledger, current_ledger),
    {
        let intent = match self.intents.get(&intent_id) {
            Some(i) => *i,
            None => return Err(ContractError::IntentNotFound),
        };
        if ledger == 0 || ledger > current_ledger {
            return Err(ContractError::NotFinal);
        }
        if bytes32_is_zero(&tx_hash) {
            return Err(ContractError::EmptyCommitment);
        }
        if intent.observed_ledger != 0 {
            if bytes32_eq(&intent.observed_tx_hash, &tx_hash) && intent.observed_ledger == ledger {
                return Ok(());
            }
            return Err(ContractError::AlreadyObserved);
        }
        match intent.state {
            SettlementState::Pending => {},
            _ => return Err(ContractError::InvalidState),
        }
        let updated = SettlementIntent { observed_tx_hash: tx_hash, observed_ledger: ledger, ..intent };
        proof {
            lemma_alerting_insert(self.intents.view(), intent_id, updated);
            assert(!alerting(self.intents.view()).contains(intent_id));
            assert(alerting(self.intents.view()).remove(intent_id) =~= alerting(self.intents.view()));
        }
        let alerts = self.alerts;
        self.store(intent_id, updated, alerts);
        Ok(())
    }

    pub fn reconcile(&mut self, intent_id: Bytes32, observed_amount: i128, current_ledger: u32) -> (r: Result<
        SettlementState,
        ContractError,
    >)
        requires
            old(self).wf(),
        ensures
            final(self).wf(),
            (r, final(self)@) == reconcile_spec(old(self)@, intent_id, observed_amount, current_ledger),
    {
        let intent = match self.intents.get(&intent_id) {
            Some(i) => *i,
            None => return Err(ContractError::IntentNotFound),
        };
        match intent.state {
            SettlementState::Pending => {},
            other => return Ok(other),
        }
        if intent.observed_ledger == 0 {
            return Err(ContractError::NotFinal);
        }
        let final_at: u64 = intent.observed_ledger as u64 + intent.required_finality as u64;
        if (current_ledger as u64) < final_at {
            return Err(ContractError::NotFinal);
        }
        proof {
            lemma_alerting_insert(self.intents.view(), intent_id, intent);
            assert(!alerting(self.intents.view()).contains(intent_id));
            vstd::set_lib::lemma_len_subset(alerting(self.intents.view()), self.intents.view().dom());
        }
        if observed_amount == intent.amount {
            let updated = SettlementIntent { observed_amount, state: SettlementState::Reconciled, ..intent };
            proof {
                lemma_alerting_insert(self.intents.view(), intent_id, updated);
                assert(alerting(self.intents.view()).remove(intent_id) =~= alerting(self.intents.view()));
            }
            let alerts = self.alerts;
            self.store(intent_id, updated, alerts);
            Ok(SettlementState::Reconciled)
        } else {
            let updated = SettlementIntent { observed_amount, state: SettlementState::Mismatched, ..intent };
            proof {
                lemma_alerting_insert(self.intents.view(), intent_id, updated);
            }
            let alerts = self.alerts + 1;
            self.store(intent_id, updated, alerts);
            Ok(SettlementState::Mismatched)
        }
    }

    pub fn expire(&mut self, intent_id: Bytes32) -> (r: Result<(), ContractError>)
        requires
            old(self).wf(),
        ensures
            final(self).wf(),
            (r, final(self)@) == expire_spec(old(self)@, intent_id),
    {
        let intent = match self.intents.get(&intent_id) {
            Some(i) => *i,
            None => return Err(ContractError::IntentNotFound),
        };
        match intent.state {
            SettlementState::Pending => {},
            _ => return Err(ContractError::InvalidState),
        }
        let updated = SettlementIntent { state: SettlementState::Expired, ..intent };
        proof {
            lemma_alerting_insert(self.intents.view(), intent_id, updated);
            assert(!alerting(self.intents.view()).contains(intent_id));
            vstd::set_lib::lemma_len_subset(alerting(self.intents.view()), self.intents.view().dom());
        }
        let alerts = self.alerts + 1;
        self.store(intent_id, updated, alerts);
        Ok(())
    }

    pub fn resolve(&mut self, intent_id: Bytes32, resolution_hash: Bytes32) -> (r: Result<(), ContractError>)
        requires
            old(self).wf(),
        ensures
            final(self).wf(),
            (r, final(self)@) == resolve_spec(old(self)@, intent_id, resolution_hash),
    {
        let intent = match self.intents.get(&intent_id) {
            Some(i) => *i,
            None => return Err(ContractError::IntentNotFound),
        };
        if bytes32_is_zero(&resolution_hash) {
            return Err(ContractError::EmptyCommitment);
        }
        match intent.state {
            SettlementState::Mismatched => {},
            _ => return Err(ContractError::InvalidState),
        }
        let updated = SettlementIntent { state: SettlementState::Reconciled, resolution_hash, ..intent };
        proof {
            lemma_alerting_insert(self.intents.view(), intent_id, updated);
            assert(alerting(self.intents.view()).contains(intent_id));
        }
        let alerts = self.alerts - 1;
        self.store(intent_id, updated, alerts);
        Ok(())
    }

    pub fn archive(&mut self, intent_id: Bytes32) -> (r: Result<(), ContractError>)
        requires
            old(self).wf(),
        ensures
            final(self).wf(),
            (r, final(self)@) == archive_spec(old(self)@, intent_id),
    {
        let intent = match self.intents.get(&intent_id) {
            Some(i) => *i,
            None => return Err(ContractError::IntentNotFound),
        };
        match intent.state {
            SettlementState::Reconciled => {},
            _ => return Err(ContractError::InvalidState),
        }
        proof {
            lemma_alerting_remove(self.intents.view(), intent_id);
            vstd::set_lib::lemma_len_subset(self.intents.view().remove(intent_id).dom(), self.intents.view().dom());
        }
        self.intents.remove(&intent_id);
        Ok(())
    }

    pub fn get(&self, intent_id: Bytes32) -> (r: Result<SettlementIntent, ContractError>)
        requires
            self.wf(),
        ensures
            r == if self@.intents.contains_key(intent_id) {
                Ok::<SettlementIntent, ContractError>(self@.intents[intent_id])
            } else {
                Err(ContractError::IntentNotFound)
            },
    {
        match self.intents.get(&intent_id) {
            Some(i) => Ok(*i),
            None => Err(ContractError::IntentNotFound),
        }
    }

    pub fn alert_count(&self) -> (n: u32)
        ensures
            n == self@.alerts,
    {
        self.alerts
    }

    pub fn count(&self) -> (n: u32)
        requires
            self.wf(),
        ensures
            n == self@.intents.dom().len(),
    {
        let n = self.intents.len();
        n as u32
    }
}

/// Once an intent is decided, reconciling it again with any amount at any
/// ledger reports the same verdict and changes nothing.
pub proof fn lemma_verdict_is_final(b: SettlementLedger, intent_id: Bytes32, amount: i128, ledger: u32, amount2: i128, ledger2: u32)
    requires
        reconcile_spec(b, intent_id, amount, ledger).0 is Ok,
    ensures
        ({
            let (r1, c) = reconcile_spec(b, intent_id, amount, ledger);
            let (r2, d) = reconcile_spec(c, intent_id, amount2, ledger2);
            r2 == r1 && d == c
        }),
{
}

/// The first observation sticks: a different transaction is refused and
/// the recorded one is kept.
pub proof fn lemma_observation_is_immutable(
    b: SettlementLedger,
    intent_id: Bytes32,
    tx: Bytes32,
    ledger: u32,
    current: u32,
    tx2: Bytes32,
    ledger2: u32,
    current2: u32,
)
    requires
        observe_spec(b, intent_id, tx, ledger, current).0 is Ok,
        tx2 != tx || ledger2 != ledger,
        0 < ledger2 <= current2,
        !is_zero32(tx2),
    ensures
        ({
            let c = observe_spec(b, intent_id, tx, ledger, current).1;
            observe_spec(c, intent_id, tx2, ledger2, current2) == (
                Err::<(), ContractError>(ContractError::AlreadyObserved),
                c,
            )
        }),
{
}

/// Only an explicit resolution lowers the alert count; every other call
/// leaves it where it was or raises it.
pub proof fn lemma_only_resolution_clears_alerts(
    b: SettlementLedger,
    intent_id: Bytes32,
    source: Bytes32,
    correlation_id: Bytes32,
    amount: i128,
    finality: u32,
    tx: Bytes32,
    ledger: u32,
    current: u32,
)
    requires
        b.alerts < u32::MAX,
    ensures
        open_spec(b, intent_id, source, correlation_id, amount, finality).1.alerts >= b.alerts,
        observe_spec(b, intent_id, tx, ledger, current).1.alerts >= b.alerts,
        reconcile_spec(b, intent_id, amount, current).1.alerts >= b.alerts,
        expire_spec(b, intent_id).1.alerts >= b.alerts,
        archive_spec(b, intent_id).1.alerts >= b.alerts,
{
}

/// A frontend is shown a settled amount only for a reconciled intent.
pub proof fn lemma_only_reconciled_shows_money(intent: SettlementIntent)
    ensures
        !(intent.state is Reconciled) ==> view_of(intent).settled_amount == 0,
        intent.state is Reconciled ==> view_of(intent).settled_amount == intent.observed_amount,
{
}

/// A pending intent is decided only once its own finality window has
/// closed: before a transaction has been observed, or while fewer than
/// `required_finality` ledgers have passed since the observed one, a
/// reconciliation is refused as `NotFinal` and changes nothing; from then
/// on it decides, `Reconciled` exactly when the amounts agree and
/// `Mismatched` otherwise, recording the observed amount.
pub proof fn lemma_reconcile_waits_for_the_finality_window(
    b: SettlementLedger,
    intent_id: Bytes32,
    observed_amount: i128,
    current_ledger: u32,
)
    requires
        b.intents.contains_key(intent_id),
        b.intents[intent_id].state is Pending,
        b.alerts < u32::MAX,
    ensures
        ({
            let intent = b.intents[intent_id];
            let (r, t) = reconcile_spec(b, intent_id, observed_amount, current_ledger);
            &&& (intent.observed_ledger == 0 || (current_ledger as int) < (intent.observed_ledger as int)
                + (intent.required_finality as int)) ==> r == Err::<SettlementState, ContractError>(
                ContractError::NotFinal,
            ) && t == b
            &&& (intent.observed_ledger != 0 && (current_ledger as int) >= (intent.observed_ledger as int)
                + (intent.required_finality as int)) ==> {
                &&& r is Ok
                &&& t.intents.contains_key(intent_id)
                &&& t.intents[intent_id].state == r->Ok_0
                &&& t.intents[intent_id].observed_amount == observed_amount
                &&& (r == Ok::<SettlementState, ContractError>(SettlementState::Reconciled)
                    <==> observed_amount == intent.amount)
                &&& (r == Ok::<SettlementState, ContractError>(SettlementState::Mismatched)
                    <==> observed_amount != intent.amount)
                &&& t.alerts == if observed_amount == intent.amount {
                    b.alerts as int
                } else {
                    b.alerts + 1
                }
            }
        }),
{
}

} // verus!
