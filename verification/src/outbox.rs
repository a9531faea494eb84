//! Durable outbox for scholarship domain events.
//!
//! The orchestrator enqueues a commitment to each domain event in the same
//! transaction as the domain write; a relay marks events published; each
//! consumer advances its own monotonic cursor; old published entries are
//! pruned from a stored floor. Enqueueing is idempotent per dedup key, and
//! an undelivered event is never pruned. A refused call changes nothing.
use vstd::prelude::*;
use crate::table::{Bytes32, Table, bytes32_eq};
use crate::webhooks::{
    DeliveryOutcome, DeliveryRecord, WebhookEndpoint, WebhookRegistry, WebhookState, acknowledge_delivery_spec,
    attempts_of, deliverable_spec, history_count_of, payload_spec, record_spec, register_spec, rotate_spec,
    set_active_spec,
};
use soroban_sdk::Env;
use crate::settlement::{
    SettlementBook, SettlementIntent, SettlementLedger, SettlementState, SettlementView, archive_spec, expire_spec,
    observe_spec, open_spec, reconcile_spec, resolve_spec, view_of,
};

verus! {

pub const CONTRACT_VERSION: u32 = 1;

/// Upper bound on the unpublished backlog.
pub const MAX_PENDING_EVENTS: u64 = 10_000;

/// Ceiling on entries one `prune` call may remove.
pub const MAX_PRUNE_PER_CALL: u32 = 200;

#[derive(Copy, Clone, Debug, PartialEq, Eq, Structural)]
pub enum ContractError {
    NotInitialized,
    AlreadyInitialized,
    NotAdmin,
    /// The event id counter would overflow.
    IdOverflow,
    /// No event with that id has been enqueued.
    EventNotFound,
    /// The event has already been marked published.
    AlreadyPublished,
    /// The event is still awaiting publication.
    NotPublished,
    /// The unpublished set is at `MAX_PENDING_EVENTS`.
    BacklogFull,
    /// A consumer cursor only moves forward.
    CursorRegression,
    /// A consumer cannot acknowledge an id it has already passed.
    CursorTooHigh,
    /// Schema version zero is never valid.
    InvalidSchemaVersion,
    /// The retention horizon is in the future.
    InvalidRetentionHorizon,
    /// `prune` was asked for zero entries or more than one call may remove.
    InvalidPruneLimit,
    /// No settlement intent with that id.
    IntentNotFound,
    /// A settlement intent with that id is already open.
    IntentExists,
    /// The observed transaction is not final yet, or was never observed.
    NotFinal,
    /// A different transaction has already been observed for the intent.
    AlreadyObserved,
    /// The intent is not in a state that allows the call.
    InvalidState,
    /// A zero hash where a commitment is required.
    EmptyCommitment,
    /// A settlement amount must be positive.
    InvalidAmount,
    /// The finality threshold is zero or above the maximum.
    InvalidFinality,
    /// No webhook endpoint with that id.
    EndpointNotFound,
    /// The endpoint is deactivated.
    EndpointInactive,
    /// The caller does not own the endpoint.
    NotEndpointOwner,
    /// An endpoint must subscribe to at least one topic.
    NoTopics,
    /// More topics than `MAX_ENDPOINT_TOPICS`.
    TooManyTopics,
    /// Already `MAX_ENDPOINTS` endpoints.
    TooManyEndpoints,
    /// The signature window is closed already or longer than `MAX_SIGNATURE_TTL`.
    InvalidExpiry,
    /// The delivery's signature window has closed.
    ExpiredDelivery,
    /// A delivery sequence must be exactly one past the last.
    SequenceRegression,
    /// The endpoint does not subscribe to the event's topic.
    NotSubscribed,
    /// The sequence has been acknowledged already, or a later one has.
    ReplayDetected,
    /// No delivery with that sequence is on record.
    DeliveryNotFound,
}

impl ContractError {
    /// The stable numeric code a client sees.
    pub fn code(self) -> (c: u32)
        ensures
            c == match self {
                ContractError::NotInitialized => 1u32,
                ContractError::AlreadyInitialized => 2u32,
                ContractError::NotAdmin => 3u32,
                ContractError::IdOverflow => 4u32,
                ContractError::EventNotFound => 5u32,
                ContractError::AlreadyPublished => 6u32,
                ContractError::NotPublished => 7u32,
                ContractError::BacklogFull => 8u32,
                ContractError::CursorRegression => 9u32,
                ContractError::CursorTooHigh => 10u32,
                ContractError::InvalidSchemaVersion => 11u32,
                ContractError::InvalidRetentionHorizon => 12u32,
                ContractError::InvalidPruneLimit => 13u32,
                ContractError::IntentNotFound => 14u32,
                ContractError::IntentExists => 15u32,
                ContractError::NotFinal => 16u32,
                ContractError::AlreadyObserved => 17u32,
                ContractError::InvalidState => 18u32,
                ContractError::EmptyCommitment => 19u32,
                ContractError::InvalidAmount => 20u32,
                ContractError::InvalidFinality => 21u32,
                ContractError::EndpointNotFound => 22u32,
                ContractError::EndpointInactive => 23u32,
                ContractError::NotEndpointOwner => 24u32,
                ContractError::NoTopics => 25u32,
                ContractError::TooManyTopics => 26u32,
                ContractError::TooManyEndpoints => 27u32,
                ContractError::InvalidExpiry => 28u32,
                ContractError::ExpiredDelivery => 29u32,
                ContractError::SequenceRegression => 30u32,
                ContractError::NotSubscribed => 31u32,
                ContractError::ReplayDetected => 32u32,
                ContractError::DeliveryNotFound => 33u32,
            },
    {
        match self {
            ContractError::NotInitialized => 1,
            ContractError::AlreadyInitialized => 2,
            ContractError::NotAdmin => 3,
            ContractError::IdOverflow => 4,
            ContractError::EventNotFound => 5,
            ContractError::AlreadyPublished => 6,
            ContractError::NotPublished => 7,
            ContractError::BacklogFull => 8,
            ContractError::CursorRegression => 9,
            ContractError::CursorTooHigh => 10,
            ContractError::InvalidSchemaVersion => 11,
            ContractError::InvalidRetentionHorizon => 12,
            ContractError::InvalidPruneLimit => 13,
            ContractError::IntentNotFound => 14,
            ContractError::IntentExists => 15,
            ContractError::NotFinal => 16,
            ContractError::AlreadyObserved => 17,
            ContractError::InvalidState => 18,
            ContractError::EmptyCommitment => 19,
            ContractError::InvalidAmount => 20,
            ContractError::InvalidFinality => 21,
            ContractError::EndpointNotFound => 22,
            ContractError::EndpointInactive => 23,
            ContractError::NotEndpointOwner => 24,
            ContractError::NoTopics => 25,
            ContractError::TooManyTopics => 26,
            ContractError::TooManyEndpoints => 27,
            ContractError::InvalidExpiry => 28,
            ContractError::ExpiredDelivery => 29,
            ContractError::SequenceRegression => 30,
            ContractError::NotSubscribed => 31,
            ContractError::ReplayDetected => 32,
            ContractError::DeliveryNotFound => 33,
        }
    }
}

/// One durable outbox entry. `payload_hash` is a commitment to the
/// off-chain payload, never the payload itself; `published_at` is zero
/// until a relay confirms delivery.
#[derive(Copy, Clone, Debug, PartialEq, Eq)]
pub struct OutboxEvent {
    pub id: u64,
    pub topic: Bytes32,
    pub schema_version: u32,
    pub correlation_id: Bytes32,
    pub payload_hash: Bytes32,
    pub source: Bytes32,
    pub created_at: u64,
    pub published_at: u64,
}

/// The abstract storage of the outbox.
pub struct OutboxState {
    pub admin: Option<Bytes32>,
    pub next_event_id: u64,
    pub pending: u64,
    pub prune_floor: u64,
    pub events: Map<u64, OutboxEvent>,
    pub dedup: Map<Bytes32, u64>,
    pub cursors: Map<Bytes32, u64>,
}

pub open spec fn operator_check(s: OutboxState, caller: Bytes32) -> Result<(), ContractError> {
    if s.admin == Some(caller) {
        Ok(())
    } else {
        Err(ContractError::NotAdmin)
    }
}

/// The outcome of `enqueue`. A repeated dedup key returns the first id and
/// writes nothing, before any other check but the operator and schema ones.
pub open spec fn enqueue_spec(
    s: OutboxState,
    operator: Bytes32,
    source: Bytes32,
    topic: Bytes32,
    schema_version: u32,
    correlation_id: Bytes32,
    dedup_key: Bytes32,
    payload_hash: Bytes32,
    now: u64,
) -> (Result<u64, ContractError>, OutboxState) {
    if operator_check(s, operator) is Err {
        (Err(ContractError::NotAdmin), s)
    } else if schema_version == 0 {
        (Err(ContractError::InvalidSchemaVersion), s)
    } else if s.dedup.contains_key(dedup_key) {
        (Ok(s.dedup[dedup_key]), s)
    } else if s.pending >= MAX_PENDING_EVENTS {
        (Err(ContractError::BacklogFull), s)
    } else if s.next_event_id == u64::MAX {
        (Err(ContractError::IdOverflow), s)
    } else {
        let id = s.next_event_id;
        let event = OutboxEvent {
            id,
            topic,
            schema_version,
            correlation_id,
            payload_hash,
            source,
            created_at: now,
            published_at: 0,
        };
        (
            Ok(id),
            OutboxState {
                events: s.events.insert(id, event),
                dedup: s.dedup.insert(dedup_key, id),
                next_event_id: (id + 1) as u64,
                pending: (s.pending + 1) as u64,
                ..s
            },
        )
    }
}

/// The outcome of `mark_published`.
pub open spec fn mark_published_spec(s: OutboxState, relay: Bytes32, event_id: u64, now: u64) -> (
    Result<(), ContractError>,
    OutboxState,
) {
    if operator_check(s, relay) is Err {
        (Err(ContractError::NotAdmin), s)
    } else if !s.events.contains_key(event_id) {
        (Err(ContractError::EventNotFound), s)
    } else if s.events[event_id].published_at != 0 {
        (Err(ContractError::AlreadyPublished), s)
    } else {
        (
            Ok(()),
            OutboxState {
                events: s.events.insert(event_id, OutboxEvent { published_at: now, ..s.events[event_id] }),
                pending: if s.pending > 0 { (s.pending - 1) as u64 } else { 0 },
                ..s
            },
        )
    }
}

/// A consumer's cursor, zero before its first acknowledgement.
pub open spec fn cursor_of(s: OutboxState, consumer: Bytes32) -> u64 {
    if s.cursors.contains_key(consumer) { s.cursors[consumer] } else { 0 }
}

/// The outcome of `acknowledge`.
pub open spec fn acknowledge_spec(s: OutboxState, consumer: Bytes32, event_id: u64) -> (
    Result<u64, ContractError>,
    OutboxState,
) {
    let current = cursor_of(s, consumer);
    if !s.events.contains_key(event_id) {
        (Err(ContractError::EventNotFound), s)
    } else if event_id < current {
        (Err(ContractError::CursorRegression), s)
    } else if event_id == current && current != 0 {
        (Ok(current), s)
    } else {
        (Ok(event_id), OutboxState { cursors: s.cursors.insert(consumer, event_id), ..s })
    }
}

/// An entry at `id` may be swept: it is already gone, or it was delivered
/// before the horizon.
pub open spec fn sweepable(events: Map<u64, OutboxEvent>, id: u64, horizon: u64) -> bool {
    !events.contains_key(id) || (events[id].published_at != 0 && events[id].published_at < horizon)
}

/// How many consecutive entries from `floor` one sweep removes: it stops at
/// `next`, after `limit` entries, or at the first entry it may not remove.
pub open spec fn sweep_len(events: Map<u64, OutboxEvent>, floor: u64, next: u64, limit: nat, horizon: u64) -> nat
    decreases limit,
{
    if limit == 0 || floor >= next {
        0
    } else if sweepable(events, floor, horizon) {
        1 + sweep_len(events, (floor + 1) as u64, next, (limit - 1) as nat, horizon)
    } else {
        0
    }
}

/// `events` without the ids in `[from, to)`.
pub open spec fn without_range(events: Map<u64, OutboxEvent>, from: int, to: int) -> Map<u64, OutboxEvent> {
    events.restrict(events.dom().filter(|k: u64| !(from <= k < to)))
}

/// The outcome of `prune`.
pub open spec fn prune_spec(s: OutboxState, caller: Bytes32, horizon: u64, limit: u32, now: u64) -> (
    Result<u32, ContractError>,
    OutboxState,
) {
    if operator_check(s, caller) is Err {
        (Err(ContractError::NotAdmin), s)
    } else if horizon > now {
        (Err(ContractError::InvalidRetentionHorizon), s)
    } else if limit == 0 || limit > MAX_PRUNE_PER_CALL {
        (Err(ContractError::InvalidPruneLimit), s)
    } else {
        let n = sweep_len(s.events, s.prune_floor, s.next_event_id, limit as nat, horizon);
        (
            Ok(n as u32),
            OutboxState {
                events: without_range(s.events, s.prune_floor as int, s.prune_floor + n),
                prune_floor: (s.prune_floor + n) as u64,
                ..s
            },
        )
    }
}

/// The outbox contract's storage.
pub struct ScholarshipOutboxContract {
    admin: Option<Bytes32>,
    next_event_id: u64,
    pending: u64,
    prune_floor: u64,
    events: Table<u64, OutboxEvent>,
    dedup: Table<Bytes32, u64>,
    cursors: Table<Bytes32, u64>,
    settlements: SettlementBook,
    webhooks: WebhookRegistry,
}

impl ScholarshipOutboxContract {
    pub closed spec fn wf(&self) -> bool {
        &&& self.events.wf()
        &&& self.dedup.wf()
        &&& self.cursors.wf()
        &&& self.settlements.wf()
        &&& self.webhooks.wf()
    }

    pub closed spec fn view(&self) -> OutboxState {
        OutboxState {
            admin: self.admin,
            next_event_id: self.next_event_id,
            pending: self.pending,
            prune_floor: self.prune_floor,
            events: self.events.view(),
            dedup: self.dedup.view(),
            cursors: self.cursors.view(),
        }
    }

    /// The settlement intents this outbox tracks.
    pub closed spec fn settlements(&self) -> SettlementLedger {
        self.settlements.view()
    }

    /// The webhook endpoints and delivery history of this outbox.
    pub closed spec fn webhooks(&self) -> WebhookState {
        self.webhooks.view()
    }

    pub fn new() -> (s: Self)
        ensures
            s.wf(),
            s@ == (OutboxState {
                admin: None,
                next_event_id: 0,
                pending: 0,
                prune_floor: 0,
                events: Map::empty(),
                dedup: Map::empty(),
                cursors: Map::empty(),
            }),
            s.settlements() == (SettlementLedger { intents: Map::empty(), alerts: 0 }),
            s.webhooks() == (WebhookState {
                next_endpoint_id: 1,
                endpoints: Map::empty(),
                subscriptions: Set::empty(),
                deliveries: Map::empty(),
                attempts: Map::empty(),
            }),
    {
        let s = ScholarshipOutboxContract {
            admin: None,
            next_event_id: 0,
            pending: 0,
            prune_floor: 0,
            events: Table::new(),
            dedup: Table::new(),
            cursors: Table::new(),
            settlements: SettlementBook::new(),
            webhooks: WebhookRegistry::new(),
        };
        proof {
            assert(s.settlements() =~= (SettlementLedger { intents: Map::empty(), alerts: 0 }));
        }
        s
    }

    /// Sets the admin and starts the event ids and prune floor at 1.
    pub fn initialize(&mut self, admin: Bytes32) -> (r: Result<(), ContractError>)
        requires
            old(self).wf(),
        ensures
            final(self).wf(),
            final(self).settlements() == old(self).settlements(),
            final(self).webhooks() == old(self).webhooks(),
            old(self)@.admin is Some ==> r == Err::<(), ContractError>(ContractError::AlreadyInitialized)
                && final(self)@ == old(self)@,
            old(self)@.admin is None ==> r == Ok::<(), ContractError>(()) && final(self)@ == (OutboxState {
                admin: Some(admin),
                next_event_id: 1,
                pending: 0,
                prune_floor: 1,
                ..old(self)@
            }),
    {
        if self.admin.is_some() {
            return Err(ContractError::AlreadyInitialized);
        }
        self.admin = Some(admin);
        self.next_event_id = 1;
        self.pending = 0;
        self.prune_floor = 1;
        Ok(())
    }

    pub(crate) fn require_admin(&self, account: &Bytes32) -> (r: Result<(), ContractError>)
        ensures
            r == operator_check(self@, *account),
    {
        match &self.admin {
            Some(a) => if bytes32_eq(a, account) {
                Ok(())
            } else {
                Err(ContractError::NotAdmin)
            },
            None => Err(ContractError::NotAdmin),
        }
    }

    /// Records a domain event durably and returns its id; the same
    /// `dedup_key` again returns the first id and writes nothing.
    pub fn enqueue(
        &mut self,
        operator: Bytes32,
        source: Bytes32,
        topic: Bytes32,
        schema_version: u32,
        correlation_id: Bytes32,
        dedup_key: Bytes32,
        payload_hash: Bytes32,
        now: u64,
    ) -> (r: Result<u64, ContractError>)
        requires
            old(self).wf(),
        ensures
            final(self).wf(),
            final(self).settlements() == old(self).settlements(),
            final(self).webhooks() == old(self).webhooks(),
            (r, final(self)@) == enqueue_spec(
                old(self)@,
                operator,
                source,
                topic,
                schema_version,
                correlation_id,
                dedup_key,
                payload_hash,
                now,
            ),
    {
        match self.require_admin(&operator) {
            Err(e) => return Err(e),
            Ok(()) => {},
        }
        if schema_version == 0 {
            return Err(ContractError::InvalidSchemaVersion);
        }
        match self.dedup.get(&dedup_key) {
            Some(existing) => return Ok(*existing),
            None => {},
        }
        if self.pending >= MAX_PENDING_EVENTS {
            return Err(ContractError::BacklogFull);
        }
        let id = self.next_event_id;
        if id == u64::MAX {
            return Err(ContractError::IdOverflow);
        }
        let event = OutboxEvent {
            id,
            topic,
            schema_version,
            correlation_id,
            payload_hash,
            source,
            created_at: now,
            published_at: 0,
        };
        self.events.insert(id, event);
        self.dedup.insert(dedup_key, id);
        self.next_event_id = id + 1;
        self.pending = self.pending + 1;
        Ok(id)
    }

    /// The relay confirms delivery; this is the only transition that clears
    /// an entry from the backlog.
    pub fn mark_published(&mut self, relay: Bytes32, event_id: u64, now: u64) -> (r: Result<(), ContractError>)
        requires
            old(self).wf(),
        ensures
            final(self).wf(),
            final(self).settlements() == old(self).settlements(),
            final(self).webhooks() == old(self).webhooks(),
            (r, final(self)@) == mark_published_spec(old(self)@, relay, event_id, now),
    {
        match self.require_admin(&relay) {
            Err(e) => return Err(e),
            Ok(()) => {},
        }
        let event = match self.events.get(&event_id) {
            Some(e) => *e,
            None => return Err(ContractError::EventNotFound),
        };
        if event.published_at != 0 {
            return Err(ContractError::AlreadyPublished);
        }
        self.events.insert(event_id, OutboxEvent { published_at: now, ..event });
        self.pending = self.pending.saturating_sub(1);
        Ok(())
    }

    /// Advances a consumer's cursor to `event_id`, which must exist and not
    /// be behind the cursor.
    pub fn acknowledge(&mut self, consumer: Bytes32, event_id: u64) -> (r: Result<u64, ContractError>)
        requires
            old(self).wf(),
        ensures
            final(self).wf(),
            final(self).settlements() == old(self).settlements(),
            final(self).webhooks() == old(self).webhooks(),
            (r, final(self)@) == acknowledge_spec(old(self)@, consumer, event_id),
    {
        if !self.events.contains_key(&event_id) {
            return Err(ContractError::EventNotFound);
        }
        let current = match self.cursors.get(&consumer) {
            Some(c) => *c,
            None => 0,
        };
        if event_id < current {
            return Err(ContractError::CursorRegression);
        }
        if event_id == current && current != 0 {
            return Ok(current);
        }
        self.cursors.insert(consumer, event_id);
        Ok(event_id)
    }

    /// Drops up to `limit` delivered entries older than `horizon`, starting
    /// from the stored floor and stopping at the first undelivered one.
    /// Returns how many were removed.
    pub fn prune(&mut self, caller: Bytes32, horizon: u64, limit: u32, now: u64) -> (r: Result<u32, ContractError>)
        requires
            old(self).wf(),
        ensures
            final(self).wf(),
            final(self).settlements() == old(self).settlements(),
            final(self).webhooks() == old(self).webhooks(),
            (r, final(self)@) == prune_spec(old(self)@, caller, horizon, limit, now),
    {
        match self.require_admin(&caller) {
            Err(e) => return Err(e),
            Ok(()) => {},
        }
        if horizon > now {
            return Err(ContractError::InvalidRetentionHorizon);
        }
        if limit == 0 || limit > MAX_PRUNE_PER_CALL {
            return Err(ContractError::InvalidPruneLimit);
        }
        let next = self.next_event_id;
        let start = self.prune_floor;
        let mut floor = self.prune_floor;
        let mut pruned: u32 = 0;
        let ghost old_events = self.events.view();
        while floor < next && pruned < limit
            invariant
                self.wf(),
                self.admin == old(self).admin,
                self.next_event_id == next,
                self.pending == old(self).pending,
                self.prune_floor == start,
                self.dedup.view() == old(self).dedup.view(),
                self.cursors.view() == old(self).cursors.view(),
                self.settlements == old(self).settlements,
                self.webhooks == old(self).webhooks,
                old_events == old(self).events.view(),
                start == old(self).prune_floor,
                next == old(self).next_event_id,
                floor == start + pruned,
                pruned <= limit,
                self.events.view() == without_range(old_events, start as int, floor as int),
                sweep_len(old_events, start, next, limit as nat, horizon) == pruned + sweep_len(
                    old_events,
                    floor,
                    next,
                    (limit - pruned) as nat,
                    horizon,
                ),
            ensures
                floor >= next || pruned == limit || !sweepable(old_events, floor, horizon),
                floor == start + pruned,
                pruned <= limit,
            decreases limit - pruned,
        {
            let removable = match self.events.get(&floor) {
                None => true,
                Some(event) => event.published_at != 0 && event.published_at < horizon,
            };
            proof {
                assert(self.events.view().contains_key(floor) == old_events.contains_key(floor));
                if old_events.contains_key(floor) {
                    assert(self.events.view()[floor] == old_events[floor]);
                }
                assert(removable == sweepable(old_events, floor, horizon));
            }
            if !removable {
                break;
            }
            self.events.remove(&floor);
            proof {
                assert(self.events.view() =~= without_range(old_events, start as int, floor + 1));
            }
            floor = floor + 1;
            pruned = pruned + 1;
        }
        proof {
            assert(sweep_len(old_events, floor, next, (limit - pruned) as nat, horizon) == 0);
        }
        self.prune_floor = floor;
        Ok(pruned)
    }

    pub fn get_event(&self, event_id: u64) -> (r: Result<OutboxEvent, ContractError>)
        requires
            self.wf(),
        ensures
            r == if self@.events.contains_key(event_id) {
                Ok::<OutboxEvent, ContractError>(self@.events[event_id])
            } else {
                Err(ContractError::EventNotFound)
            },
    {
        match self.events.get(&event_id) {
            Some(e) => Ok(*e),
            None => Err(ContractError::EventNotFound),
        }
    }

    /// Resolves a dedup key to its event id.
    pub fn get_by_dedup(&self, dedup_key: Bytes32) -> (r: Result<u64, ContractError>)
        requires
            self.wf(),
        ensures
            r == if self@.dedup.contains_key(dedup_key) {
                Ok::<u64, ContractError>(self@.dedup[dedup_key])
            } else {
                Err(ContractError::EventNotFound)
            },
    {
        match self.dedup.get(&dedup_key) {
            Some(id) => Ok(*id),
            None => Err(ContractError::EventNotFound),
        }
    }

    pub fn get_cursor(&self, consumer: Bytes32) -> (n: u64)
        requires
            self.wf(),
        ensures
            n == cursor_of(self@, consumer),
    {
        match self.cursors.get(&consumer) {
            Some(c) => *c,
            None => 0,
        }
    }

    /// How many entries await publication.
    pub fn pending_count(&self) -> (n: u64)
        ensures
            n == self@.pending,
    {
        self.pending
    }

    pub fn version(&self) -> (v: u32)
        ensures
            v == CONTRACT_VERSION,
    {
        CONTRACT_VERSION
    }

    /// Opens a settlement intent for a payment the backend expects.
    pub fn open_settlement(
        &mut self,
        operator: Bytes32,
        intent_id: Bytes32,
        source: Bytes32,
        correlation_id: Bytes32,
        amount: i128,
        required_finality: u32,
    ) -> (r: Result<(), ContractError>)
        requires
            old(self).wf(),
        ensures
            final(self).wf(),
            final(self)@ == old(self)@,
            final(self).webhooks() == old(self).webhooks(),
            operator_check(old(self)@, operator) is Err ==> r == Err::<(), ContractError>(ContractError::NotAdmin)
                && final(self).settlements() == old(self).settlements(),
            operator_check(old(self)@, operator) is Ok ==> (r, final(self).settlements()) == open_spec(
                old(self).settlements(),
                intent_id,
                source,
                correlation_id,
                amount,
                required_finality,
            ),
    {
        match self.require_admin(&operator) {
            Err(e) => return Err(e),
            Ok(()) => {},
        }
        self.settlements.open(intent_id, source, correlation_id, amount, required_finality)
    }

    /// Records the transaction seen on chain for an intent, in `ledger`,
    /// while the chain is at `current_ledger`.
    pub fn observe_settlement(
        &mut self,
        operator: Bytes32,
        intent_id: Bytes32,
        tx_hash: Bytes32,
        ledger: u32,
        current_ledger: u32,
    ) -> (r: Result<(), ContractError>)
        requires
            old(self).wf(),
        ensures
            final(self).wf(),
            final(self)@ == old(self)@,
            final(self).webhooks() == old(self).webhooks(),
            operator_check(old(self)@, operator) is Err ==> r == Err::<(), ContractError>(ContractError::NotAdmin)
                && final(self).settlements() == old(self).settlements(),
            operator_check(old(self)@, operator) is Ok ==> (r, final(self).settlements()) == observe_spec(
                old(self).settlements(),
                intent_id,
                tx_hash,
                ledger,
                current_ledger,
            ),
    {
        match self.require_admin(&operator) {
            Err(e) => return Err(e),
            Ok(()) => {},
        }
        self.settlements.observe(intent_id, tx_hash, ledger, current_ledger)
    }

    /// Decides a pending intent once its transaction is final, comparing the
    /// amount the chain shows with the one expected; a decided intent
    /// reports its verdict unchanged.
    pub fn reconcile_settlement(
        &mut self,
        operator: Bytes32,
        intent_id: Bytes32,
        observed_amount: i128,
        current_ledger: u32,
    ) -> (r: Result<SettlementState, ContractError>)
        requires
            old(self).wf(),
        ensures
            final(self).wf(),
            final(self)@ == old(self)@,
            final(self).webhooks() == old(self).webhooks(),
            operator_check(old(self)@, operator) is Err ==> r == Err::<SettlementState, ContractError>(
                ContractError::NotAdmin,
            ) && final(self).settlements() == old(self).settlements(),
            operator_check(old(self)@, operator) is Ok ==> (r, final(self).settlements()) == reconcile_spec(
                old(self).settlements(),
                intent_id,
                observed_amount,
                current_ledger,
            ),
    {
        match self.require_admin(&operator) {
            Err(e) => return Err(e),
            Ok(()) => {},
        }
        self.settlements.reconcile(intent_id, observed_amount, current_ledger)
    }

    /// Marks a pending intent whose payment never arrived.
    pub fn expire_settlement(&mut self, operator: Bytes32, intent_id: Bytes32) -> (r: Result<(), ContractError>)
        requires
            old(self).wf(),
        ensures
            final(self).wf(),
            final(self)@ == old(self)@,
            final(self).webhooks() == old(self).webhooks(),
            operator_check(old(self)@, operator) is Err ==> r == Err::<(), ContractError>(ContractError::NotAdmin)
                && final(self).settlements() == old(self).settlements(),
            operator_check(old(self)@, operator) is Ok ==> (r, final(self).settlements()) == expire_spec(
                old(self).settlements(),
                intent_id,
            ),
    {
        match self.require_admin(&operator) {
            Err(e) => return Err(e),
            Ok(()) => {},
        }
        self.settlements.expire(intent_id)
    }

    /// An operator signs off on a mismatch, committing to the reason by hash.
    pub fn resolve_settlement(&mut self, operator: Bytes32, intent_id: Bytes32, resolution_hash: Bytes32) -> (r:
        Result<(), ContractError>)
        requires
            old(self).wf(),
        ensures
            final(self).wf(),
            final(self)@ == old(self)@,
            final(self).webhooks() == old(self).webhooks(),
            operator_check(old(self)@, operator) is Err ==> r == Err::<(), ContractError>(ContractError::NotAdmin)
                && final(self).settlements() == old(self).settlements(),
            operator_check(old(self)@, operator) is Ok ==> (r, final(self).settlements()) == resolve_spec(
                old(self).settlements(),
                intent_id,
                resolution_hash,
            ),
    {
        match self.require_admin(&operator) {
            Err(e) => return Err(e),
            Ok(()) => {},
        }
        self.settlements.resolve(intent_id, resolution_hash)
    }

    /// Drops a reconciled intent, freeing its slot.
    pub fn archive_settlement(&mut self, operator: Bytes32, intent_id: Bytes32) -> (r: Result<(), ContractError>)
        requires
            old(self).wf(),
        ensures
            final(self).wf(),
            final(self)@ == old(self)@,
            final(self).webhooks() == old(self).webhooks(),
            operator_check(old(self)@, operator) is Err ==> r == Err::<(), ContractError>(ContractError::NotAdmin)
                && final(self).settlements() == old(self).settlements(),
            operator_check(old(self)@, operator) is Ok ==> (r, final(self).settlements()) == archive_spec(
                old(self).settlements(),
                intent_id,
            ),
    {
        match self.require_admin(&operator) {
            Err(e) => return Err(e),
            Ok(()) => {},
        }
        self.settlements.archive(intent_id)
    }

    pub fn get_intent(&self, intent_id: Bytes32) -> (r: Result<SettlementIntent, ContractError>)
        requires
            self.wf(),
        ensures
            r == if self.settlements().intents.contains_key(intent_id) {
                Ok::<SettlementIntent, ContractError>(self.settlements().intents[intent_id])
            } else {
                Err(ContractError::IntentNotFound)
            },
    {
        self.settlements.get(intent_id)
    }

    /// What a frontend may show for an intent.
    pub fn settlement_status(&self, intent_id: Bytes32) -> (r: Result<SettlementView, ContractError>)
        requires
            self.wf(),
        ensures
            r == if self.settlements().intents.contains_key(intent_id) {
                Ok::<SettlementView, ContractError>(view_of(self.settlements().intents[intent_id]))
            } else {
                Err(ContractError::IntentNotFound)
            },
    {
        let intent = self.settlements.get(intent_id)?;
        let settled_amount = match intent.state {
            SettlementState::Reconciled => intent.observed_amount,
            _ => 0,
        };
        Ok(SettlementView { state: intent.state, settled_amount, observed_amount: intent.observed_amount })
    }

    /// The settled amount of a reconciled intent; any other state is
    /// refused rather than read as zero.
    pub fn settled_amount(&self, intent_id: Bytes32) -> (r: Result<i128, ContractError>)
        requires
            self.wf(),
        ensures
            r == if !self.settlements().intents.contains_key(intent_id) {
                Err::<i128, ContractError>(ContractError::IntentNotFound)
            } else if self.settlements().intents[intent_id].state is Reconciled {
                Ok(self.settlements().intents[intent_id].observed_amount)
            } else {
                Err(ContractError::InvalidState)
            },
    {
        let intent = self.settlements.get(intent_id)?;
        match intent.state {
            SettlementState::Reconciled => Ok(intent.observed_amount),
            _ => Err(ContractError::InvalidState),
        }
    }

    /// How many intents are in a state that needs a human.
    pub fn alert_count(&self) -> (n: u32)
        ensures
            n == self.settlements().alerts,
    {
        self.settlements.alert_count()
    }

    /// How many intents are stored.
    pub fn tracked_intents(&self) -> (n: u32)
        requires
            self.wf(),
        ensures
            n == self.settlements().intents.dom().len(),
    {
        self.settlements.count()
    }
    fn event_copy(&self, event_id: u64) -> (e: Option<OutboxEvent>)
        requires
            self.wf(),
        ensures
            e == event_at(self@, event_id),
    {
        match self.events.get(&event_id) {
            Some(e) => Some(*e),
            None => None,
        }
    }

    /// Enrolls a sponsor's webhook endpoint subscribed to `topics` and
    /// returns its id. The operator enrolls; the owner's own signature is
    /// required as well.
    pub fn register_endpoint(
        &mut self,
        operator: Bytes32,
        owner: Bytes32,
        url_hash: Bytes32,
        secret_hash: Bytes32,
        topics: Vec<Bytes32>,
        now: u64,
    ) -> (r: Result<u64, ContractError>)
        requires
            old(self).wf(),
        ensures
            final(self).wf(),
            final(self)@ == old(self)@,
            final(self).settlements() == old(self).settlements(),
            operator_check(old(self)@, operator) is Err ==> r == Err::<u64, ContractError>(ContractError::NotAdmin)
                && final(self).webhooks() == old(self).webhooks(),
            operator_check(old(self)@, operator) is Ok ==> (r, final(self).webhooks()) == register_spec(
                old(self).webhooks(),
                owner,
                url_hash,
                secret_hash,
                topics@,
                now,
            ),
    {
        match self.require_admin(&operator) {
            Err(e) => return Err(e),
            Ok(()) => {},
        }
        self.webhooks.register(owner, url_hash, secret_hash, &topics, now)
    }

    /// Replaces an endpoint's secret commitment and returns the new epoch.
    pub fn rotate_secret(&mut self, operator: Bytes32, endpoint_id: u64, secret_hash: Bytes32) -> (r: Result<
        u32,
        ContractError,
    >)
        requires
            old(self).wf(),
        ensures
            final(self).wf(),
            final(self)@ == old(self)@,
            final(self).settlements() == old(self).settlements(),
            operator_check(old(self)@, operator) is Err ==> r == Err::<u32, ContractError>(ContractError::NotAdmin)
                && final(self).webhooks() == old(self).webhooks(),
            operator_check(old(self)@, operator) is Ok ==> (r, final(self).webhooks()) == rotate_spec(
                old(self).webhooks(),
                endpoint_id,
                secret_hash,
            ),
    {
        match self.require_admin(&operator) {
            Err(e) => return Err(e),
            Ok(()) => {},
        }
        self.webhooks.rotate(endpoint_id, secret_hash)
    }

    /// Activates or deactivates an endpoint; its history is kept.
    pub fn set_endpoint_active(&mut self, operator: Bytes32, endpoint_id: u64, active: bool) -> (r: Result<
        (),
        ContractError,
    >)
        requires
            old(self).wf(),
        ensures
            final(self).wf(),
            final(self)@ == old(self)@,
            final(self).settlements() == old(self).settlements(),
            operator_check(old(self)@, operator) is Err ==> r == Err::<(), ContractError>(ContractError::NotAdmin)
                && final(self).webhooks() == old(self).webhooks(),
            operator_check(old(self)@, operator) is Ok ==> (r, final(self).webhooks()) == set_active_spec(
                old(self).webhooks(),
                endpoint_id,
                active,
            ),
    {
        match self.require_admin(&operator) {
            Err(e) => return Err(e),
            Ok(()) => {},
        }
        self.webhooks.set_active(endpoint_id, active)
    }

    /// Whether the event may be sent to the endpoint: it is active and
    /// subscribes to the event's topic.
    pub fn deliverable(&self, endpoint_id: u64, event_id: u64) -> (b: bool)
        requires
            self.wf(),
        ensures
            b == deliverable_spec(self.webhooks(), endpoint_id, event_at(self@, event_id)),
    {
        let event = self.event_copy(event_id);
        self.webhooks.deliverable(endpoint_id, event)
    }

    /// The digest a relay signs for the next delivery of an event to an
    /// endpoint. `contract` is this outbox's contract id and `network_id`
    /// the ledger's network id. Anyone may recompute it.
    pub fn delivery_payload(
        &self,
        env: &Env,
        contract: Bytes32,
        network_id: Bytes32,
        endpoint_id: u64,
        event_id: u64,
        sequence: u64,
        expires_at: u64,
        now: u64,
    ) -> (r: Result<Bytes32, ContractError>)
        requires
            self.wf(),
        ensures
            r == payload_spec(
                self.webhooks(),
                contract,
                network_id,
                endpoint_id,
                event_id,
                event_at(self@, event_id),
                sequence,
                expires_at,
                now,
            ),
    {
        let event = self.event_copy(event_id);
        self.webhooks.payload(env, contract, network_id, endpoint_id, event_id, event, sequence, expires_at, now)
    }

    /// Records one delivery attempt under the endpoint's next sequence and
    /// returns the event's attempt number.
    pub fn record_delivery(
        &mut self,
        operator: Bytes32,
        endpoint_id: u64,
        event_id: u64,
        sequence: u64,
        expires_at: u64,
        outcome: DeliveryOutcome,
        now: u64,
    ) -> (r: Result<u32, ContractError>)
        requires
            old(self).wf(),
        ensures
            final(self).wf(),
            final(self)@ == old(self)@,
            final(self).settlements() == old(self).settlements(),
            operator_check(old(self)@, operator) is Err ==> r == Err::<u32, ContractError>(ContractError::NotAdmin)
                && final(self).webhooks() == old(self).webhooks(),
            operator_check(old(self)@, operator) is Ok ==> (r, final(self).webhooks()) == record_spec(
                old(self).webhooks(),
                endpoint_id,
                event_id,
                event_at(old(self)@, event_id),
                sequence,
                expires_at,
                outcome,
                now,
            ),
    {
        match self.require_admin(&operator) {
            Err(e) => return Err(e),
            Ok(()) => {},
        }
        let event = self.event_copy(event_id);
        self.webhooks.record(endpoint_id, event_id, event, sequence, expires_at, outcome, now)
    }

    /// The endpoint's owner confirms that delivery `sequence` arrived.
    pub fn acknowledge_delivery(&mut self, sponsor: Bytes32, endpoint_id: u64, sequence: u64, now: u64) -> (r:
        Result<(), ContractError>)
        requires
            old(self).wf(),
        ensures
            final(self).wf(),
            final(self)@ == old(self)@,
            final(self).settlements() == old(self).settlements(),
            (r, final(self).webhooks()) == acknowledge_delivery_spec(old(self).webhooks(), sponsor, endpoint_id, sequence, now),
    {
        self.webhooks.acknowledge(sponsor, endpoint_id, sequence, now)
    }

    /// The endpoint with this id.
    pub fn get_endpoint(&self, endpoint_id: u64) -> (r: Result<WebhookEndpoint, ContractError>)
        requires
            self.wf(),
        ensures
            r == if self.webhooks().endpoints.contains_key(endpoint_id) {
                Ok::<WebhookEndpoint, ContractError>(self.webhooks().endpoints[endpoint_id])
            } else {
                Err(ContractError::EndpointNotFound)
            },
    {
        self.webhooks.get_endpoint(endpoint_id)
    }

    /// How many delivery records the endpoint keeps; zero for an unknown
    /// endpoint.
    pub fn delivery_history_count(&self, endpoint_id: u64) -> (n: u32)
        requires
            self.wf(),
        ensures
            n == history_count_of(self.webhooks(), endpoint_id),
    {
        self.webhooks.history_count(endpoint_id)
    }

    /// The oldest sequence whose record is kept; zero for an unknown
    /// endpoint.
    pub fn delivery_history_floor(&self, endpoint_id: u64) -> (n: u64)
        requires
            self.wf(),
        ensures
            n == if self.webhooks().endpoints.contains_key(endpoint_id) {
                self.webhooks().endpoints[endpoint_id].history_floor
            } else {
                0
            },
    {
        self.webhooks.history_floor(endpoint_id)
    }

    /// The record of delivery `sequence` to the endpoint, while it is kept.
    pub fn get_delivery(&self, endpoint_id: u64, sequence: u64) -> (r: Result<DeliveryRecord, ContractError>)
        requires
            self.wf(),
        ensures
            r == if self.webhooks().deliveries.contains_key((endpoint_id, sequence)) {
                Ok::<DeliveryRecord, ContractError>(self.webhooks().deliveries[(endpoint_id, sequence)])
            } else {
                Err(ContractError::DeliveryNotFound)
            },
    {
        self.webhooks.get_delivery(endpoint_id, sequence)
    }

    /// How many delivery attempts have been recorded for an event at an
    /// endpoint, evicted records included.
    pub fn get_attempts(&self, endpoint_id: u64, event_id: u64) -> (n: u32)
        requires
            self.wf(),
        ensures
            n == attempts_of(self.webhooks(), endpoint_id, event_id),
    {
        self.webhooks.attempts(endpoint_id, event_id)
    }

    /// The last sequence the endpoint's owner acknowledged; zero for none.
    pub fn get_acked_sequence(&self, endpoint_id: u64) -> (n: u64)
        requires
            self.wf(),
        ensures
            n == if self.webhooks().endpoints.contains_key(endpoint_id) {
                self.webhooks().endpoints[endpoint_id].acked_sequence
            } else {
                0
            },
    {
        self.webhooks.acked_sequence(endpoint_id)
    }
}

/// The event stored under `id`, if any.
pub open spec fn event_at(s: OutboxState, id: u64) -> Option<OutboxEvent> {
    if s.events.contains_key(id) {
        Some(s.events[id])
    } else {
        None
    }
}

/// The events whose delivery is still outstanding.
pub open spec fn unpublished(events: Map<u64, OutboxEvent>) -> Set<u64> {
    events.dom().filter(|k: u64| events[k].published_at == 0)
}

/// A prune never removes an entry that has not been delivered, nor one
/// delivered at or after the horizon.
pub proof fn lemma_prune_keeps_undelivered(s: OutboxState, caller: Bytes32, horizon: u64, limit: u32, now: u64, id: u64)
    requires
        s.events.contains_key(id),
        s.events[id].published_at == 0 || s.events[id].published_at >= horizon,
    ensures
        prune_spec(s, caller, horizon, limit, now).1.events.contains_key(id),
        prune_spec(s, caller, horizon, limit, now).1.events[id] == s.events[id],
{
    if prune_spec(s, caller, horizon, limit, now).0 is Ok {
        lemma_sweep_stops_before(s.events, s.prune_floor, s.next_event_id, limit as nat, horizon, id);
        let n = sweep_len(s.events, s.prune_floor, s.next_event_id, limit as nat, horizon);
        assert(!(s.prune_floor <= id < s.prune_floor + n));
    }
}

/// A sweep never covers an entry it may not remove.
pub proof fn lemma_sweep_stops_before(events: Map<u64, OutboxEvent>, floor: u64, next: u64, limit: nat, horizon: u64, id: u64)
    requires
        !sweepable(events, id, horizon),
    ensures
        !(floor <= id < floor + sweep_len(events, floor, next, limit, horizon)),
    decreases limit,
{
    if limit > 0 && floor < next && sweepable(events, floor, horizon) {
        lemma_sweep_stops_before(events, (floor + 1) as u64, next, (limit - 1) as nat, horizon, id);
    }
}

/// Enqueueing again with a dedup key that is already stored returns the
/// first id and changes nothing.
pub proof fn lemma_enqueue_is_idempotent(
    s: OutboxState,
    operator: Bytes32,
    source: Bytes32,
    topic: Bytes32,
    schema_version: u32,
    correlation_id: Bytes32,
    dedup_key: Bytes32,
    payload_hash: Bytes32,
    now: u64,
    source2: Bytes32,
    topic2: Bytes32,
    schema_version2: u32,
    correlation_id2: Bytes32,
    payload_hash2: Bytes32,
    later: u64,
)
    requires
        enqueue_spec(s, operator, source, topic, schema_version, correlation_id, dedup_key, payload_hash, now).0 is Ok,
        schema_version2 != 0,
    ensures
        ({
            let (r1, t) = enqueue_spec(s, operator, source, topic, schema_version, correlation_id, dedup_key, payload_hash, now);
            let (r2, u) = enqueue_spec(t, operator, source2, topic2, schema_version2, correlation_id2, dedup_key, payload_hash2, later);
            r2 == r1 && u == t
        }),
{
}

/// The pending count tracks the unpublished events: every successful
/// enqueue or publication keeps `pending == |unpublished|`, as long as
/// events are published with a non-zero time.
pub proof fn lemma_pending_counts_unpublished(
    s: OutboxState,
    operator: Bytes32,
    source: Bytes32,
    topic: Bytes32,
    schema_version: u32,
    correlation_id: Bytes32,
    dedup_key: Bytes32,
    payload_hash: Bytes32,
    event_id: u64,
    now: u64,
)
    requires
        s.events.dom().finite(),
        s.pending == unpublished(s.events).len(),
        forall|k: u64| s.events.contains_key(k) ==> k < s.next_event_id,
        now != 0,
    ensures
        ({
            let t = enqueue_spec(s, operator, source, topic, schema_version, correlation_id, dedup_key, payload_hash, now).1;
            t.pending == unpublished(t.events).len()
        }),
        ({
            let t = mark_published_spec(s, operator, event_id, now).1;
            t.pending == unpublished(t.events).len()
        }),
{
    let (r, t) = enqueue_spec(s, operator, source, topic, schema_version, correlation_id, dedup_key, payload_hash, now);
    if r is Ok && !s.dedup.contains_key(dedup_key) {
        let id = s.next_event_id;
        assert(!s.events.contains_key(id));
        assert(unpublished(t.events) =~= unpublished(s.events).insert(id));
        s.events.dom().lemma_len_filter(|k: u64| s.events[k].published_at == 0);
    }
    let (r2, t2) = mark_published_spec(s, operator, event_id, now);
    if r2 is Ok {
        assert(unpublished(t2.events) =~= unpublished(s.events).remove(event_id));
        s.events.dom().lemma_len_filter(|k: u64| s.events[k].published_at == 0);
        assert(unpublished(s.events).contains(event_id));
        assert(unpublished(s.events).len() > 0) by {
            vstd::set_lib::lemma_set_empty_equivalency_len(unpublished(s.events));
        }
    }
}

/// Each consumer's cursor only moves forward, and only its own: an
/// acknowledgement never lowers the consumer's cursor and never touches
/// another consumer's.
pub proof fn lemma_cursors_only_move_forward(s: OutboxState, consumer: Bytes32, event_id: u64, other: Bytes32)
    requires
        other != consumer,
    ensures
        cursor_of(acknowledge_spec(s, consumer, event_id).1, consumer) >= cursor_of(s, consumer),
        cursor_of(acknowledge_spec(s, consumer, event_id).1, other) == cursor_of(s, other),
        acknowledge_spec(s, consumer, event_id).0 matches Ok(c) ==> c == cursor_of(
            acknowledge_spec(s, consumer, event_id).1,
            consumer,
        ),
{
}

/// What one sweep covers: at most `limit` entries, each of them one it may
/// remove, and it stops early only at `next` or at an entry it may not
/// remove.
proof fn lemma_sweep_covers(events: Map<u64, OutboxEvent>, floor: u64, next: u64, limit: nat, horizon: u64)
    ensures
        sweep_len(events, floor, next, limit, horizon) <= limit,
        forall|i: u64|
            floor <= i < floor + sweep_len(events, floor, next, limit, horizon) ==> #[trigger] sweepable(
                events,
                i,
                horizon,
            ),
        sweep_len(events, floor, next, limit, horizon) < limit && floor + sweep_len(
            events,
            floor,
            next,
            limit,
            horizon,
        ) < next ==> !sweepable(events, (floor + sweep_len(events, floor, next, limit, horizon)) as u64, horizon),
        sweep_len(events, floor, next, limit, horizon) == 0 || floor + sweep_len(events, floor, next, limit, horizon)
            <= next,
    decreases limit,
{
    if limit == 0 || floor >= next {
    } else if sweepable(events, floor, horizon) {
        lemma_sweep_covers(events, (floor + 1) as u64, next, (limit - 1) as nat, horizon);
    }
}

/// A prune removes exactly the entries from the stored floor up to the
/// new floor, each of them absent already or delivered before the horizon;
/// it stops short of `limit` only at the next id or at an entry it may not
/// remove; every other entry and the pending count stay as they were.
pub proof fn lemma_prune_removes_exactly_the_swept_range(
    s: OutboxState,
    caller: Bytes32,
    horizon: u64,
    limit: u32,
    now: u64,
)
    requires
        operator_check(s, caller) is Ok,
        horizon <= now,
        1 <= limit <= MAX_PRUNE_PER_CALL,
    ensures
        ({
            let (r, t) = prune_spec(s, caller, horizon, limit, now);
            let f = s.prune_floor;
            let k = r->Ok_0;
            &&& r is Ok
            &&& k <= limit
            &&& t.prune_floor == f + k
            &&& t.pending == s.pending
            &&& forall|i: u64| f <= i < f + k ==> #[trigger] sweepable(s.events, i, horizon) && !t.events.contains_key(i)
            &&& forall|i: u64|
                !(f <= i < f + k) ==> (#[trigger] t.events.contains_key(i) == s.events.contains_key(i)) && (
                s.events.contains_key(i) ==> t.events[i] == s.events[i])
            &&& k < limit && f + k < s.next_event_id ==> !sweepable(s.events, (f + k) as u64, horizon)
        }),
{
    lemma_sweep_covers(s.events, s.prune_floor, s.next_event_id, limit as nat, horizon);
    let (r, t) = prune_spec(s, caller, horizon, limit, now);
    let f = s.prune_floor;
    let n = sweep_len(s.events, s.prune_floor, s.next_event_id, limit as nat, horizon);
    assert(n <= limit);
    assert(r == Ok::<u32, ContractError>(n as u32));
    assert(t.prune_floor == f + n);
    assert forall|i: u64| f <= i < f + n implies #[trigger] sweepable(s.events, i, horizon) && !t.events.contains_key(i) by {
    }
    assert forall|i: u64| !(f <= i < f + n) implies (#[trigger] t.events.contains_key(i) == s.events.contains_key(i)) && (
        s.events.contains_key(i) ==> t.events[i] == s.events[i]) by {
    }
}

} // verus!
