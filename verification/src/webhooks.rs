//! Signed sponsor webhooks: endpoint enrollment, secret rotation, signed
//! delivery payloads, the delivery history and sponsor acknowledgements.
//!
//! Each endpoint has a strictly increasing delivery sequence with no gaps,
//! a bounded window of delivery records that evicts the oldest, attempt
//! counters per event that eviction never touches, and an acknowledged
//! sequence that only its owner moves, and only forward. A refused call
//! changes nothing.
use vstd::prelude::*;
use soroban_sdk::Env;
use crate::outbox::{ContractError, OutboxEvent};
use crate::table::{Bytes32, Table, bytes32_eq, bytes32_is_zero, is_zero32};
use crate::webhook_signing::{ENVELOPE_VERSION, WebhookEnvelope, payload_of, signing_payload};

verus! {

/// How many endpoints one outbox may enroll.
pub const MAX_ENDPOINTS: u32 = 64;

/// How many topics one endpoint may subscribe to.
pub const MAX_ENDPOINT_TOPICS: u32 = 16;

/// How many delivery records are kept per endpoint.
pub const MAX_DELIVERY_HISTORY: u32 = 256;

/// The longest signature window, in ledger seconds.
pub const MAX_SIGNATURE_TTL: u64 = 3_600;

/// What became of one delivery attempt.
#[derive(Copy, Clone, Debug, PartialEq, Eq, Structural)]
pub enum DeliveryOutcome {
    /// The sponsor's endpoint accepted the delivery.
    Delivered,
    /// The attempt failed and may be retried under a new sequence.
    Failed,
    /// The relay deliberately did not send the event.
    Skipped,
}

/// One enrolled sponsor endpoint. The URL and the shared secret are held as
/// commitments only.
#[derive(Copy, Clone, Debug, PartialEq, Eq)]
pub struct WebhookEndpoint {
    pub id: u64,
    pub owner: Bytes32,
    pub url_hash: Bytes32,
    pub secret_hash: Bytes32,
    pub active: bool,
    /// Generation of the secret; starts at 1 and each rotation adds one.
    pub secret_epoch: u32,
    pub created_at: u64,
    /// The last delivery sequence recorded; zero before the first.
    pub last_sequence: u64,
    /// The last sequence the owner acknowledged; zero before the first.
    pub acked_sequence: u64,
    /// The oldest sequence whose record is still kept.
    pub history_floor: u64,
}

/// One recorded delivery attempt. `acked_at` is zero until the owner
/// acknowledges it.
#[derive(Copy, Clone, Debug, PartialEq, Eq)]
pub struct DeliveryRecord {
    pub endpoint_id: u64,
    pub sequence: u64,
    pub event_id: u64,
    pub attempt: u32,
    pub outcome: DeliveryOutcome,
    pub expires_at: u64,
    pub recorded_at: u64,
    pub acked_at: u64,
}

/// The abstract webhook state: endpoints by id, subscribed (endpoint,
/// topic) pairs, delivery records by (endpoint, sequence) and attempt
/// counters by (endpoint, event).
pub struct WebhookState {
    pub next_endpoint_id: u64,
    pub endpoints: Map<u64, WebhookEndpoint>,
    pub subscriptions: Set<(u64, Bytes32)>,
    pub deliveries: Map<(u64, u64), DeliveryRecord>,
    pub attempts: Map<(u64, u64), u32>,
}

/// Whether `seq` lies in the endpoint's kept window of records.
pub open spec fn in_window(ep: WebhookEndpoint, seq: u64) -> bool {
    ep.history_floor <= seq <= ep.last_sequence
}

/// How many records the endpoint keeps.
pub open spec fn history_len(ep: WebhookEndpoint) -> int {
    ep.last_sequence + 1 - ep.history_floor
}

/// The per-endpoint bookkeeping is coherent.
pub open spec fn endpoint_ok(ep: WebhookEndpoint, id: u64) -> bool {
    &&& ep.id == id
    &&& 1 <= ep.history_floor <= ep.last_sequence + 1
    &&& history_len(ep) <= MAX_DELIVERY_HISTORY
    &&& ep.acked_sequence <= ep.last_sequence
    &&& ep.secret_epoch >= 1
}

/// The registry's invariant: ids are below the next id; each endpoint's
/// records are exactly those of its window, with nothing missing in
/// between, and each record sits under its own endpoint and sequence.
pub open spec fn registry_consistent(s: WebhookState) -> bool {
    &&& s.next_endpoint_id >= 1
    &&& forall|id: u64| #[trigger]
        s.endpoints.contains_key(id) ==> 1 <= id < s.next_endpoint_id && endpoint_ok(s.endpoints[id], id)
    &&& forall|k: (u64, u64)| #[trigger]
        s.deliveries.contains_key(k) ==> s.endpoints.contains_key(k.0) && in_window(s.endpoints[k.0], k.1)
            && s.deliveries[k].endpoint_id == k.0 && s.deliveries[k].sequence == k.1
    &&& forall|id: u64, seq: u64|
        s.endpoints.contains_key(id) && in_window(s.endpoints[id], seq) ==> #[trigger] s.deliveries.contains_key(
            (id, seq),
        )
}

/// Whether the endpoint subscribes to `topic`.
pub open spec fn subscribed(s: WebhookState, id: u64, topic: Bytes32) -> bool {
    s.subscriptions.contains((id, topic))
}

/// The attempts recorded so far for `event_id` at the endpoint.
pub open spec fn attempts_of(s: WebhookState, id: u64, event_id: u64) -> u32 {
    if s.attempts.contains_key((id, event_id)) {
        s.attempts[(id, event_id)]
    } else {
        0
    }
}

/// The outcome of enrolling an endpoint.
pub open spec fn register_spec(
    s: WebhookState,
    owner: Bytes32,
    url_hash: Bytes32,
    secret_hash: Bytes32,
    topics: Seq<Bytes32>,
    now: u64,
) -> (Result<u64, ContractError>, WebhookState) {
    if is_zero32(url_hash) || is_zero32(secret_hash) {
        (Err(ContractError::EmptyCommitment), s)
    } else if topics.len() == 0 {
        (Err(ContractError::NoTopics), s)
    } else if topics.len() > MAX_ENDPOINT_TOPICS {
        (Err(ContractError::TooManyTopics), s)
    } else if s.next_endpoint_id > MAX_ENDPOINTS {
        (Err(ContractError::TooManyEndpoints), s)
    } else {
        let id = s.next_endpoint_id;
        let ep = WebhookEndpoint {
            id,
            owner,
            url_hash,
            secret_hash,
            active: true,
            secret_epoch: 1,
            created_at: now,
            last_sequence: 0,
            acked_sequence: 0,
            history_floor: 1,
        };
        (
            Ok(id),
            WebhookState {
                next_endpoint_id: (id + 1) as u64,
                endpoints: s.endpoints.insert(id, ep),
                subscriptions: s.subscriptions.union(
                    Set::new(|k: (u64, Bytes32)| k.0 == id && topics.contains(k.1)),
                ),
                ..s
            },
        )
    }
}

/// The outcome of rotating an endpoint's secret: a new commitment under the
/// next epoch, with sequences and history untouched.
pub open spec fn rotate_spec(s: WebhookState, id: u64, secret_hash: Bytes32) -> (
    Result<u32, ContractError>,
    WebhookState,
) {
    if is_zero32(secret_hash) {
        (Err(ContractError::EmptyCommitment), s)
    } else if !s.endpoints.contains_key(id) {
        (Err(ContractError::EndpointNotFound), s)
    } else if s.endpoints[id].secret_epoch == u32::MAX {
        (Err(ContractError::IdOverflow), s)
    } else {
        let ep = s.endpoints[id];
        let epoch = (ep.secret_epoch + 1) as u32;
        (
            Ok(epoch),
            WebhookState {
                endpoints: s.endpoints.insert(
                    id,
                    WebhookEndpoint { secret_hash, secret_epoch: epoch, ..ep },
                ),
                ..s
            },
        )
    }
}

/// The outcome of activating or deactivating an endpoint.
pub open spec fn set_active_spec(s: WebhookState, id: u64, active: bool) -> (
    Result<(), ContractError>,
    WebhookState,
) {
    if !s.endpoints.contains_key(id) {
        (Err(ContractError::EndpointNotFound), s)
    } else {
        (
            Ok(()),
            WebhookState {
                endpoints: s.endpoints.insert(id, WebhookEndpoint { active, ..s.endpoints[id] }),
                ..s
            },
        )
    }
}

/// Whether the event may be sent to the endpoint.
pub open spec fn deliverable_spec(s: WebhookState, id: u64, event: Option<OutboxEvent>) -> bool {
    &&& s.endpoints.contains_key(id)
    &&& s.endpoints[id].active
    &&& event is Some
    &&& subscribed(s, id, event->Some_0.topic)
}

/// The envelope a delivery of `event_id` under `sequence` commits to.
pub open spec fn envelope_for(
    ep: WebhookEndpoint,
    contract: Bytes32,
    network_id: Bytes32,
    event_id: u64,
    sequence: u64,
    expires_at: u64,
) -> WebhookEnvelope {
    WebhookEnvelope {
        version: ENVELOPE_VERSION,
        network_id,
        contract,
        endpoint_id: ep.id,
        secret_epoch: ep.secret_epoch,
        event_id,
        sequence,
        expires_at,
    }
}

/// What `delivery_payload` gives: the digest to sign for the next delivery
/// of a subscribed event, inside a window that is still open and no longer
/// than [`MAX_SIGNATURE_TTL`].
pub open spec fn payload_spec(
    s: WebhookState,
    contract: Bytes32,
    network_id: Bytes32,
    id: u64,
    event_id: u64,
    event: Option<OutboxEvent>,
    sequence: u64,
    expires_at: u64,
    now: u64,
) -> Result<Bytes32, ContractError> {
    if !s.endpoints.contains_key(id) {
        Err(ContractError::EndpointNotFound)
    } else if !s.endpoints[id].active {
        Err(ContractError::EndpointInactive)
    } else if event is None {
        Err(ContractError::EventNotFound)
    } else if !subscribed(s, id, event->Some_0.topic) {
        Err(ContractError::NotSubscribed)
    } else if expires_at <= now || expires_at > now + MAX_SIGNATURE_TTL {
        Err(ContractError::InvalidExpiry)
    } else if sequence != s.endpoints[id].last_sequence + 1 {
        Err(ContractError::SequenceRegression)
    } else {
        Ok(
            payload_of(
                envelope_for(s.endpoints[id], contract, network_id, event_id, sequence, expires_at),
                event->Some_0.payload_hash,
            ),
        )
    }
}

/// The outcome of recording a delivery attempt. Only a skip may name an
/// unsubscribed event. The record takes the next sequence; when the window
/// is over [`MAX_DELIVERY_HISTORY`] the oldest record goes. The attempt
/// counter of the event goes up by one and is returned.
pub open spec fn record_spec(
    s: WebhookState,
    id: u64,
    event_id: u64,
    event: Option<OutboxEvent>,
    sequence: u64,
    expires_at: u64,
    outcome: DeliveryOutcome,
    now: u64,
) -> (Result<u32, ContractError>, WebhookState) {
    if !s.endpoints.contains_key(id) {
        (Err(ContractError::EndpointNotFound), s)
    } else if !s.endpoints[id].active {
        (Err(ContractError::EndpointInactive), s)
    } else if event is None {
        (Err(ContractError::EventNotFound), s)
    } else if !(outcome is Skipped) && !subscribed(s, id, event->Some_0.topic) {
        (Err(ContractError::NotSubscribed), s)
    } else if now > expires_at {
        (Err(ContractError::ExpiredDelivery), s)
    } else if sequence != s.endpoints[id].last_sequence + 1 {
        (Err(ContractError::SequenceRegression), s)
    } else if attempts_of(s, id, event_id) == u32::MAX {
        (Err(ContractError::IdOverflow), s)
    } else {
        let ep = s.endpoints[id];
        let attempt = (attempts_of(s, id, event_id) + 1) as u32;
        let rec = DeliveryRecord {
            endpoint_id: id,
            sequence,
            event_id,
            attempt,
            outcome,
            expires_at,
            recorded_at: now,
            acked_at: 0,
        };
        let evict = sequence + 1 - ep.history_floor > MAX_DELIVERY_HISTORY;
        let floor = if evict {
            (ep.history_floor + 1) as u64
        } else {
            ep.history_floor
        };
        let kept = s.deliveries.insert((id, sequence), rec);
        (
            Ok(attempt),
            WebhookState {
                endpoints: s.endpoints.insert(
                    id,
                    WebhookEndpoint { last_sequence: sequence, history_floor: floor, ..ep },
                ),
                deliveries: if evict {
                    kept.remove((id, ep.history_floor))
                } else {
                    kept
                },
                attempts: s.attempts.insert((id, event_id), attempt),
                ..s
            },
        )
    }
}

/// The outcome of the owner acknowledging a delivery: only a recorded
/// sequence past the last acknowledged one is accepted.
pub open spec fn acknowledge_delivery_spec(s: WebhookState, sponsor: Bytes32, id: u64, sequence: u64, now: u64) -> (
    Result<(), ContractError>,
    WebhookState,
) {
    if !s.endpoints.contains_key(id) {
        (Err(ContractError::EndpointNotFound), s)
    } else if s.endpoints[id].owner != sponsor {
        (Err(ContractError::NotEndpointOwner), s)
    } else if sequence == 0 || sequence > s.endpoints[id].last_sequence {
        (Err(ContractError::DeliveryNotFound), s)
    } else if sequence <= s.endpoints[id].acked_sequence {
        (Err(ContractError::ReplayDetected), s)
    } else if !s.deliveries.contains_key((id, sequence)) {
        (Err(ContractError::DeliveryNotFound), s)
    } else {
        let ep = s.endpoints[id];
        let rec = s.deliveries[(id, sequence)];
        (
            Ok(()),
            WebhookState {
                endpoints: s.endpoints.insert(id, WebhookEndpoint { acked_sequence: sequence, ..ep }),
                deliveries: s.deliveries.insert((id, sequence), DeliveryRecord { acked_at: now, ..rec }),
                ..s
            },
        )
    }
}

/// The number of records an endpoint keeps; zero for an unknown endpoint.
pub open spec fn history_count_of(s: WebhookState, id: u64) -> int {
    if s.endpoints.contains_key(id) {
        history_len(s.endpoints[id])
    } else {
        0
    }
}

proof fn lemma_take_contains(s: Seq<Bytes32>, i: int, x: Bytes32)
    requires
        0 <= i < s.len(),
    ensures
        s.take(i + 1).contains(x) <==> s.take(i).contains(x) || x == s[i],
{
    if s.take(i + 1).contains(x) {
        let j = choose|j: int| 0 <= j < i + 1 && #[trigger] s.take(i + 1)[j] == x;
        if j < i {
            assert(s.take(i)[j] == x);
        }
    }
    if s.take(i).contains(x) {
        let j = choose|j: int| 0 <= j < i && #[trigger] s.take(i)[j] == x;
        assert(s.take(i + 1)[j] == x);
    }
    if x == s[i] {
        assert(s.take(i + 1)[i] == x);
    }
}

/// The webhook endpoints, subscriptions and delivery history of an outbox.
pub struct WebhookRegistry {
    next_endpoint_id: u64,
    endpoints: Table<u64, WebhookEndpoint>,
    subscriptions: Table<(u64, Bytes32), bool>,
    deliveries: Table<(u64, u64), DeliveryRecord>,
    attempts: Table<(u64, u64), u32>,
}

impl WebhookRegistry {
    pub closed spec fn wf(&self) -> bool {
        &&& self.endpoints.wf()
        &&& self.subscriptions.wf()
        &&& self.deliveries.wf()
        &&& self.attempts.wf()
        &&& registry_consistent(self.view())
    }

    pub closed spec fn view(&self) -> WebhookState {
        WebhookState {
            next_endpoint_id: self.next_endpoint_id,
            endpoints: self.endpoints.view(),
            subscriptions: self.subscriptions.view().dom(),
            deliveries: self.deliveries.view(),
            attempts: self.attempts.view(),
        }
    }

    pub fn new() -> (r: Self)
        ensures
            r.wf(),
            r.view().next_endpoint_id == 1,
            r.view().endpoints == Map::<u64, WebhookEndpoint>::empty(),
            r.view().subscriptions == Set::<(u64, Bytes32)>::empty(),
            r.view().deliveries == Map::<(u64, u64), DeliveryRecord>::empty(),
            r.view().attempts == Map::<(u64, u64), u32>::empty(),
    {
        let r = WebhookRegistry {
            next_endpoint_id: 1,
            endpoints: Table::new(),
            subscriptions: Table::new(),
            deliveries: Table::new(),
            attempts: Table::new(),
        };
        proof {
            assert(r.view().subscriptions =~= Set::<(u64, Bytes32)>::empty());
        }
        r
    }

    /// Enrolls an endpoint subscribed to `topics` and returns its id.
    pub fn register(
        &mut self,
        owner: Bytes32,
        url_hash: Bytes32,
        secret_hash: Bytes32,
        topics: &Vec<Bytes32>,
        now: u64,
    ) -> (r: Result<u64, ContractError>)
        requires
            old(self).wf(),
        ensures
            final(self).wf(),
            (r, final(self).view()) == register_spec(old(self).view(), owner, url_hash, secret_hash, topics@, now),
    {
        if bytes32_is_zero(&url_hash) || bytes32_is_zero(&secret_hash) {
            return Err(ContractError::EmptyCommitment);
        }
        if topics.len() == 0 {
            return Err(ContractError::NoTopics);
        }
        if topics.len() > 16 {
            return Err(ContractError::TooManyTopics);
        }
        if self.next_endpoint_id > 64 {
            return Err(ContractError::TooManyEndpoints);
        }
        let ghost s0 = self.view();
        let id = self.next_endpoint_id;
        let mut i: usize = 0;
        while i < topics.len()
            invariant
                self.subscriptions.wf(),
                self.endpoints.wf(),
                self.deliveries.wf(),
                self.attempts.wf(),
                registry_consistent(s0),
                id == s0.next_endpoint_id,
                id <= MAX_ENDPOINTS,
                self.next_endpoint_id == s0.next_endpoint_id,
                self.endpoints.view() == s0.endpoints,
                self.deliveries.view() == s0.deliveries,
                self.attempts.view() == s0.attempts,
                0 <= i <= topics@.len(),
                self.subscriptions.view().dom() == s0.subscriptions.union(
                    Set::new(|k: (u64, Bytes32)| k.0 == id && topics@.take(i as int).contains(k.1)),
                ),
            decreases topics@.len() - i,
        {
            self.subscriptions.insert((id, topics[i]), true);
            proof {
                let prev = Set::new(|k: (u64, Bytes32)| k.0 == id && topics@.take(i as int).contains(k.1));
                let next = Set::new(|k: (u64, Bytes32)| k.0 == id && topics@.take(i + 1).contains(k.1));
                assert forall|k: (u64, Bytes32)| #[trigger] next.contains(k) <==> prev.insert((id, topics@[i as int])).contains(k) by {
                    lemma_take_contains(topics@, i as int, k.1);
                }
                assert(next =~= prev.insert((id, topics@[i as int])));
                assert(self.subscriptions.view().dom() =~= s0.subscriptions.union(next));
            }
            i = i + 1;
        }
        proof {
            assert(topics@.take(topics@.len() as int) =~= topics@);
        }
        let ep = WebhookEndpoint {
            id,
            owner,
            url_hash,
            secret_hash,
            active: true,
            secret_epoch: 1,
            created_at: now,
            last_sequence: 0,
            acked_sequence: 0,
            history_floor: 1,
        };
        self.endpoints.insert(id, ep);
        self.next_endpoint_id = id + 1;
        proof {
            let s = self.view();
            assert forall|k: (u64, u64)| #[trigger] s.deliveries.contains_key(k) implies s.endpoints.contains_key(k.0)
                && in_window(s.endpoints[k.0], k.1) && s.deliveries[k].endpoint_id == k.0
                && s.deliveries[k].sequence == k.1 by {
                assert(s0.deliveries.contains_key(k));
                assert(s0.endpoints.contains_key(k.0));
            }
            assert forall|j: u64, seq: u64|
                s.endpoints.contains_key(j) && in_window(s.endpoints[j], seq) implies #[trigger] s.deliveries.contains_key(
                (j, seq),
            ) by {
                if j != id {
                    assert(s0.endpoints.contains_key(j));
                }
            }
            assert(s.subscriptions =~= s0.subscriptions.union(
                Set::new(|k: (u64, Bytes32)| k.0 == id && topics@.contains(k.1)),
            ));
        }
        Ok(id)
    }

    /// Replaces an endpoint's secret commitment under the next epoch.
    pub fn rotate(&mut self, id: u64, secret_hash: Bytes32) -> (r: Result<u32, ContractError>)
        requires
            old(self).wf(),
        ensures
            final(self).wf(),
            (r, final(self).view()) == rotate_spec(old(self).view(), id, secret_hash),
    {
        if bytes32_is_zero(&secret_hash) {
            return Err(ContractError::EmptyCommitment);
        }
        let ep = match self.endpoints.get(&id) {
            Some(e) => *e,
            None => return Err(ContractError::EndpointNotFound),
        };
        if ep.secret_epoch == u32::MAX {
            return Err(ContractError::IdOverflow);
        }
        let epoch = ep.secret_epoch + 1;
        let ghost s0 = self.view();
        self.endpoints.insert(id, WebhookEndpoint { secret_hash, secret_epoch: epoch, ..ep });
        proof {
            assert(self.view().endpoints.dom() =~= s0.endpoints.dom());
            self.lemma_same_windows(s0);
        }
        Ok(epoch)
    }

    /// An endpoint update that keeps every window leaves the invariant in
    /// place.
    proof fn lemma_same_windows(&self, s0: WebhookState)
        requires
            registry_consistent(s0),
            self.view().next_endpoint_id == s0.next_endpoint_id,
            self.view().deliveries == s0.deliveries,
            self.view().endpoints.dom() == s0.endpoints.dom(),
            forall|j: u64| #[trigger]
                s0.endpoints.contains_key(j) ==> self.view().endpoints[j].last_sequence
                    == s0.endpoints[j].last_sequence && self.view().endpoints[j].history_floor
                    == s0.endpoints[j].history_floor && self.view().endpoints[j].id == s0.endpoints[j].id
                    && self.view().endpoints[j].acked_sequence <= self.view().endpoints[j].last_sequence
                    && self.view().endpoints[j].secret_epoch >= 1,
        ensures
            registry_consistent(self.view()),
    {
        let s = self.view();
        assert forall|j: u64| #[trigger] s.endpoints.contains_key(j) implies 1 <= j < s.next_endpoint_id
            && endpoint_ok(s.endpoints[j], j) by {
            assert(s0.endpoints.contains_key(j));
        }
        assert forall|k: (u64, u64)| #[trigger] s.deliveries.contains_key(k) implies s.endpoints.contains_key(k.0)
            && in_window(s.endpoints[k.0], k.1) && s.deliveries[k].endpoint_id == k.0
            && s.deliveries[k].sequence == k.1 by {
            assert(s0.deliveries.contains_key(k));
            assert(s0.endpoints.contains_key(k.0));
        }
        assert forall|j: u64, seq: u64|
            s.endpoints.contains_key(j) && in_window(s.endpoints[j], seq) implies #[trigger] s.deliveries.contains_key(
            (j, seq),
        ) by {
            assert(s0.endpoints.contains_key(j));
            assert(in_window(s0.endpoints[j], seq));
        }
    }

    /// Activates or deactivates an endpoint; its history stays.
    pub fn set_active(&mut self, id: u64, active: bool) -> (r: Result<(), ContractError>)
        requires
            old(self).wf(),
        ensures
            final(self).wf(),
            (r, final(self).view()) == set_active_spec(old(self).view(), id, active),
    {
        let ep = match self.endpoints.get(&id) {
            Some(e) => *e,
            None => return Err(ContractError::EndpointNotFound),
        };
        let ghost s0 = self.view();
        self.endpoints.insert(id, WebhookEndpoint { active, ..ep });
        proof {
            assert(self.view().endpoints.dom() =~= s0.endpoints.dom());
            self.lemma_same_windows(s0);
        }
        Ok(())
    }

    fn is_subscribed(&self, id: u64, topic: Bytes32) -> (b: bool)
        requires
            self.wf(),
        ensures
            b == subscribed(self.view(), id, topic),
    {
        self.subscriptions.contains_key(&(id, topic))
    }

    /// Whether `event` may be sent to the endpoint.
    pub fn deliverable(&self, id: u64, event: Option<OutboxEvent>) -> (b: bool)
        requires
            self.wf(),
        ensures
            b == deliverable_spec(self.view(), id, event),
    {
        let ep = match self.endpoints.get(&id) {
            Some(e) => *e,
            None => return false,
        };
        if !ep.active {
            return false;
        }
        match event {
            Some(e) => self.is_subscribed(id, e.topic),
            None => false,
        }
    }

    /// The digest to sign for the next delivery of `event_id`.
    pub fn payload(
        &self,
        env: &Env,
        contract: Bytes32,
        network_id: Bytes32,
        id: u64,
        event_id: u64,
        event: Option<OutboxEvent>,
        sequence: u64,
        expires_at: u64,
        now: u64,
    ) -> (r: Result<Bytes32, ContractError>)
        requires
            self.wf(),
        ensures
            r == payload_spec(self.view(), contract, network_id, id, event_id, event, sequence, expires_at, now),
    {
        let ep = match self.endpoints.get(&id) {
            Some(e) => *e,
            None => return Err(ContractError::EndpointNotFound),
        };
        if !ep.active {
            return Err(ContractError::EndpointInactive);
        }
        let ev = match event {
            Some(e) => e,
            None => return Err(ContractError::EventNotFound),
        };
        if !self.is_subscribed(id, ev.topic) {
            return Err(ContractError::NotSubscribed);
        }
        if expires_at <= now || expires_at - now > MAX_SIGNATURE_TTL {
            return Err(ContractError::InvalidExpiry);
        }
        if sequence == 0 || sequence - 1 != ep.last_sequence {
            return Err(ContractError::SequenceRegression);
        }
        let envelope = WebhookEnvelope {
            version: ENVELOPE_VERSION,
            network_id,
            contract,
            endpoint_id: ep.id,
            secret_epoch: ep.secret_epoch,
            event_id,
            sequence,
            expires_at,
        };
        Ok(signing_payload(env, &envelope, &ev.payload_hash))
    }

    /// Records one delivery attempt under the next sequence and returns the
    /// event's attempt number.
    pub fn record(
        &mut self,
        id: u64,
        event_id: u64,
        event: Option<OutboxEvent>,
        sequence: u64,
        expires_at: u64,
        outcome: DeliveryOutcome,
        now: u64,
    ) -> (r: Result<u32, ContractError>)
        requires
            old(self).wf(),
        ensures
            final(self).wf(),
            (r, final(self).view()) == record_spec(
                old(self).view(),
                id,
                event_id,
                event,
                sequence,
                expires_at,
                outcome,
                now,
            ),
    {
        let ep = match self.endpoints.get(&id) {
            Some(e) => *e,
            None => return Err(ContractError::EndpointNotFound),
        };
        if !ep.active {
            return Err(ContractError::EndpointInactive);
        }
        let ev = match event {
            Some(e) => e,
            None => return Err(ContractError::EventNotFound),
        };
        let skipped = match outcome {
            DeliveryOutcome::Skipped => true,
            _ => false,
        };
        if !skipped && !self.is_subscribed(id, ev.topic) {
            return Err(ContractError::NotSubscribed);
        }
        if now > expires_at {
            return Err(ContractError::ExpiredDelivery);
        }
        if sequence == 0 || sequence - 1 != ep.last_sequence {
            return Err(ContractError::SequenceRegression);
        }
        let previous: u32 = match self.attempts.get(&(id, event_id)) {
            Some(n) => *n,
            None => 0,
        };
        if previous == u32::MAX {
            return Err(ContractError::IdOverflow);
        }
        let attempt = previous + 1;
        let ghost s0 = self.view();
        let rec = DeliveryRecord {
            endpoint_id: id,
            sequence,
            event_id,
            attempt,
            outcome,
            expires_at,
            recorded_at: now,
            acked_at: 0,
        };
        self.deliveries.insert((id, sequence), rec);
        let evict = sequence - ep.history_floor >= 256;
        let floor = if evict {
            self.deliveries.remove(&(id, ep.history_floor));
            ep.history_floor + 1
        } else {
            ep.history_floor
        };
        self.endpoints.insert(id, WebhookEndpoint { last_sequence: sequence, history_floor: floor, ..ep });
        self.attempts.insert((id, event_id), attempt);
        proof {
            lemma_recording_keeps_the_history_whole(s0, id, event_id, event, sequence, expires_at, outcome, now);
        }
        Ok(attempt)
    }

    /// The owner confirms a recorded delivery arrived.
    pub fn acknowledge(&mut self, sponsor: Bytes32, id: u64, sequence: u64, now: u64) -> (r: Result<
        (),
        ContractError,
    >)
        requires
            old(self).wf(),
        ensures
            final(self).wf(),
            (r, final(self).view()) == acknowledge_delivery_spec(old(self).view(), sponsor, id, sequence, now),
    {
        let ep = match self.endpoints.get(&id) {
            Some(e) => *e,
            None => return Err(ContractError::EndpointNotFound),
        };
        if !bytes32_eq(&ep.owner, &sponsor) {
            return Err(ContractError::NotEndpointOwner);
        }
        if sequence == 0 || sequence > ep.last_sequence {
            return Err(ContractError::DeliveryNotFound);
        }
        if sequence <= ep.acked_sequence {
            return Err(ContractError::ReplayDetected);
        }
        let rec = match self.deliveries.get(&(id, sequence)) {
            Some(d) => *d,
            None => return Err(ContractError::DeliveryNotFound),
        };
        let ghost s0 = self.view();
        self.endpoints.insert(id, WebhookEndpoint { acked_sequence: sequence, ..ep });
        self.deliveries.insert((id, sequence), DeliveryRecord { acked_at: now, ..rec });
        proof {
            let s = self.view();
            assert forall|j: u64| #[trigger] s.endpoints.contains_key(j) implies 1 <= j < s.next_endpoint_id
                && endpoint_ok(s.endpoints[j], j) by {
                assert(s0.endpoints.contains_key(j));
            }
            assert forall|k: (u64, u64)| #[trigger] s.deliveries.contains_key(k) implies s.endpoints.contains_key(k.0)
                && in_window(s.endpoints[k.0], k.1) && s.deliveries[k].endpoint_id == k.0
                && s.deliveries[k].sequence == k.1 by {
                assert(s0.deliveries.contains_key(k));
                assert(s0.endpoints.contains_key(k.0));
            }
            assert forall|j: u64, seq: u64|
                s.endpoints.contains_key(j) && in_window(s.endpoints[j], seq) implies #[trigger] s.deliveries.contains_key(
                (j, seq),
            ) by {
                assert(s0.endpoints.contains_key(j));
                assert(in_window(s0.endpoints[j], seq));
                assert(s0.deliveries.contains_key((j, seq)));
            }
        }
        Ok(())
    }

    /// The endpoint with this id.
    pub fn get_endpoint(&self, id: u64) -> (r: Result<WebhookEndpoint, ContractError>)
        requires
            self.wf(),
        ensures
            r == if self.view().endpoints.contains_key(id) {
                Ok::<WebhookEndpoint, ContractError>(self.view().endpoints[id])
            } else {
                Err(ContractError::EndpointNotFound)
            },
    {
        match self.endpoints.get(&id) {
            Some(e) => Ok(*e),
            None => Err(ContractError::EndpointNotFound),
        }
    }

    /// How many delivery records the endpoint keeps.
    pub fn history_count(&self, id: u64) -> (n: u32)
        requires
            self.wf(),
        ensures
            n == history_count_of(self.view(), id),
    {
        match self.endpoints.get(&id) {
            Some(e) => {
                proof {
                    assert(self.view().endpoints.contains_key(id));
                    assert(endpoint_ok(self.view().endpoints[id], id));
                }
                (e.last_sequence - (e.history_floor - 1)) as u32
            },
            None => 0,
        }
    }

    /// The oldest sequence whose record is kept; zero for an unknown
    /// endpoint.
    pub fn history_floor(&self, id: u64) -> (n: u64)
        requires
            self.wf(),
        ensures
            n == if self.view().endpoints.contains_key(id) {
                self.view().endpoints[id].history_floor
            } else {
                0
            },
    {
        match self.endpoints.get(&id) {
            Some(e) => e.history_floor,
            None => 0,
        }
    }

    /// The record of delivery `sequence` to the endpoint, while it is kept.
    pub fn get_delivery(&self, id: u64, sequence: u64) -> (r: Result<DeliveryRecord, ContractError>)
        requires
            self.wf(),
        ensures
            r == if self.view().deliveries.contains_key((id, sequence)) {
                Ok::<DeliveryRecord, ContractError>(self.view().deliveries[(id, sequence)])
            } else {
                Err(ContractError::DeliveryNotFound)
            },
    {
        match self.deliveries.get(&(id, sequence)) {
            Some(d) => Ok(*d),
            None => Err(ContractError::DeliveryNotFound),
        }
    }

    /// How many attempts have been recorded for `event_id` at the endpoint.
    pub fn attempts(&self, id: u64, event_id: u64) -> (n: u32)
        requires
            self.wf(),
        ensures
            n == attempts_of(self.view(), id, event_id),
    {
        match self.attempts.get(&(id, event_id)) {
            Some(n) => *n,
            None => 0,
        }
    }

    /// The last sequence the owner acknowledged; zero for none.
    pub fn acked_sequence(&self, id: u64) -> (n: u64)
        requires
            self.wf(),
        ensures
            n == if self.view().endpoints.contains_key(id) {
                self.view().endpoints[id].acked_sequence
            } else {
                0
            },
    {
        match self.endpoints.get(&id) {
            Some(e) => e.acked_sequence,
            None => 0,
        }
    }
}

/// A recorded delivery takes exactly the next sequence, is stored under it,
/// and carries the event's attempt count plus one: sequences have no gaps.
pub proof fn lemma_sequences_advance_by_one(
    s: WebhookState,
    id: u64,
    event_id: u64,
    event: Option<OutboxEvent>,
    sequence: u64,
    expires_at: u64,
    outcome: DeliveryOutcome,
    now: u64,
)
    requires
        registry_consistent(s),
        record_spec(s, id, event_id, event, sequence, expires_at, outcome, now).0 is Ok,
    ensures
        ({
            let (r, t) = record_spec(s, id, event_id, event, sequence, expires_at, outcome, now);
            &&& sequence == s.endpoints[id].last_sequence + 1
            &&& t.endpoints[id].last_sequence == sequence
            &&& t.deliveries.contains_key((id, sequence))
            &&& t.deliveries[(id, sequence)].attempt == r->Ok_0
            &&& r->Ok_0 == attempts_of(s, id, event_id) + 1
            &&& attempts_of(t, id, event_id) == r->Ok_0
        }),
{
    let ep = s.endpoints[id];
    assert(endpoint_ok(ep, id));
}

/// Recording keeps the registry consistent: each endpoint's records are
/// exactly its window, with no gap, and the window never holds more than
/// [`MAX_DELIVERY_HISTORY`] records.
pub proof fn lemma_recording_keeps_the_history_whole(
    s: WebhookState,
    id: u64,
    event_id: u64,
    event: Option<OutboxEvent>,
    sequence: u64,
    expires_at: u64,
    outcome: DeliveryOutcome,
    now: u64,
)
    requires
        registry_consistent(s),
    ensures
        registry_consistent(record_spec(s, id, event_id, event, sequence, expires_at, outcome, now).1),
{
    let (r, t) = record_spec(s, id, event_id, event, sequence, expires_at, outcome, now);
    if r is Ok {
        let ep = s.endpoints[id];
        assert(endpoint_ok(ep, id));
        assert forall|j: u64| #[trigger] t.endpoints.contains_key(j) implies 1 <= j < t.next_endpoint_id
            && endpoint_ok(t.endpoints[j], j) by {
            assert(s.endpoints.contains_key(j));
        }
        assert forall|k: (u64, u64)| #[trigger] t.deliveries.contains_key(k) implies t.endpoints.contains_key(k.0)
            && in_window(t.endpoints[k.0], k.1) && t.deliveries[k].endpoint_id == k.0
            && t.deliveries[k].sequence == k.1 by {
            if k != (id, sequence) {
                assert(s.deliveries.contains_key(k));
                assert(s.endpoints.contains_key(k.0));
            }
        }
        assert forall|j: u64, seq: u64|
            t.endpoints.contains_key(j) && in_window(t.endpoints[j], seq) implies #[trigger] t.deliveries.contains_key(
            (j, seq),
        ) by {
            assert(s.endpoints.contains_key(j));
            if j != id || seq != sequence {
                assert(in_window(s.endpoints[j], seq));
                assert(s.deliveries.contains_key((j, seq)));
            }
        }
    }
}

/// When an endpoint's window is full, one more record evicts exactly the
/// oldest: the count stays at [`MAX_DELIVERY_HISTORY`] and the floor moves
/// up by one.
pub proof fn lemma_a_full_history_evicts_the_oldest(
    s: WebhookState,
    id: u64,
    event_id: u64,
    event: Option<OutboxEvent>,
    sequence: u64,
    expires_at: u64,
    outcome: DeliveryOutcome,
    now: u64,
)
    requires
        registry_consistent(s),
        s.endpoints.contains_key(id),
        history_len(s.endpoints[id]) == MAX_DELIVERY_HISTORY,
        record_spec(s, id, event_id, event, sequence, expires_at, outcome, now).0 is Ok,
    ensures
        ({
            let t = record_spec(s, id, event_id, event, sequence, expires_at, outcome, now).1;
            &&& history_count_of(t, id) == MAX_DELIVERY_HISTORY
            &&& t.endpoints[id].history_floor == s.endpoints[id].history_floor + 1
            &&& !t.deliveries.contains_key((id, s.endpoints[id].history_floor))
        }),
{
}

/// Recording never lowers an attempt counter, and eviction leaves them all
/// in place: only the recorded event's counter changes, by one.
pub proof fn lemma_attempt_counts_survive_eviction(
    s: WebhookState,
    id: u64,
    event_id: u64,
    event: Option<OutboxEvent>,
    sequence: u64,
    expires_at: u64,
    outcome: DeliveryOutcome,
    now: u64,
    j: u64,
    other_event: u64,
)
    requires
        (j, other_event) != (id, event_id),
    ensures
        attempts_of(record_spec(s, id, event_id, event, sequence, expires_at, outcome, now).1, j, other_event)
            == attempts_of(s, j, other_event),
        attempts_of(record_spec(s, id, event_id, event, sequence, expires_at, outcome, now).1, id, event_id)
            >= attempts_of(s, id, event_id),
{
}

/// An acknowledgement only moves forward, never past the last delivery,
/// and only the owner's moves it.
pub proof fn lemma_acknowledgements_only_move_forward(
    s: WebhookState,
    sponsor: Bytes32,
    id: u64,
    sequence: u64,
    now: u64,
)
    requires
        registry_consistent(s),
        acknowledge_delivery_spec(s, sponsor, id, sequence, now).0 is Ok,
    ensures
        ({
            let t = acknowledge_delivery_spec(s, sponsor, id, sequence, now).1;
            &&& s.endpoints[id].owner == sponsor
            &&& s.endpoints[id].acked_sequence < t.endpoints[id].acked_sequence
            &&& t.endpoints[id].acked_sequence <= t.endpoints[id].last_sequence
            &&& t.deliveries[(id, sequence)].acked_at == now
        }),
{
}

/// What one endpoint does never shows in another: recording for or
/// acknowledging at `id` leaves every other endpoint and its records as
/// they were.
pub proof fn lemma_endpoints_are_isolated(
    s: WebhookState,
    id: u64,
    event_id: u64,
    event: Option<OutboxEvent>,
    sequence: u64,
    expires_at: u64,
    outcome: DeliveryOutcome,
    sponsor: Bytes32,
    now: u64,
    j: u64,
    seq: u64,
)
    requires
        j != id,
    ensures
        ({
            let t = record_spec(s, id, event_id, event, sequence, expires_at, outcome, now).1;
            &&& t.endpoints.contains_key(j) == s.endpoints.contains_key(j)
            &&& s.endpoints.contains_key(j) ==> t.endpoints[j] == s.endpoints[j]
            &&& t.deliveries.contains_key((j, seq)) == s.deliveries.contains_key((j, seq))
            &&& s.deliveries.contains_key((j, seq)) ==> t.deliveries[(j, seq)] == s.deliveries[(j, seq)]
        }),
        ({
            let t = acknowledge_delivery_spec(s, sponsor, id, sequence, now).1;
            &&& t.endpoints.contains_key(j) == s.endpoints.contains_key(j)
            &&& s.endpoints.contains_key(j) ==> t.endpoints[j] == s.endpoints[j]
            &&& t.deliveries.contains_key((j, seq)) == s.deliveries.contains_key((j, seq))
            &&& s.deliveries.contains_key((j, seq)) ==> t.deliveries[(j, seq)] == s.deliveries[(j, seq)]
        }),
{
}

/// Rotating a secret bumps the epoch and replaces the commitment, and
/// touches nothing else: sequences, acknowledgements and history stay. The
/// next delivery's signed preimage changes with the epoch, so a signature
/// captured under the old secret no longer matches.
pub proof fn lemma_rotation_only_changes_the_secret(
    s: WebhookState,
    id: u64,
    secret_hash: Bytes32,
    contract: Bytes32,
    network_id: Bytes32,
    event_id: u64,
    sequence: u64,
    expires_at: u64,
    payload_hash: Bytes32,
)
    requires
        rotate_spec(s, id, secret_hash).0 is Ok,
    ensures
        ({
            let (r, t) = rotate_spec(s, id, secret_hash);
            let before = s.endpoints[id];
            let after = t.endpoints[id];
            &&& after.secret_epoch == before.secret_epoch + 1 == r->Ok_0
            &&& after.secret_hash == secret_hash
            &&& after == WebhookEndpoint { secret_hash, secret_epoch: after.secret_epoch, ..before }
            &&& t.deliveries == s.deliveries
            &&& t.attempts == s.attempts
            &&& crate::webhook_signing::preimage_of(
                envelope_for(after, contract, network_id, event_id, sequence, expires_at),
                payload_hash,
            ) != crate::webhook_signing::preimage_of(
                envelope_for(before, contract, network_id, event_id, sequence, expires_at),
                payload_hash,
            )
        }),
{
    let (r, t) = rotate_spec(s, id, secret_hash);
    let a = envelope_for(t.endpoints[id], contract, network_id, event_id, sequence, expires_at);
    let b = envelope_for(s.endpoints[id], contract, network_id, event_id, sequence, expires_at);
    if crate::webhook_signing::preimage_of(a, payload_hash) == crate::webhook_signing::preimage_of(b, payload_hash) {
        crate::webhook_signing::lemma_preimage_determines_its_fields(
            a,
            crate::signing::contract_hash(contract),
            payload_hash,
            b,
            crate::signing::contract_hash(contract),
            payload_hash,
        );
    }
}

/// Deactivating or reactivating an endpoint keeps its delivery history and
/// attempt counters.
pub proof fn lemma_deactivation_keeps_the_history(s: WebhookState, id: u64, active: bool)
    ensures
        set_active_spec(s, id, active).1.deliveries == s.deliveries,
        set_active_spec(s, id, active).1.attempts == s.attempts,
        set_active_spec(s, id, active).0 is Ok ==> set_active_spec(s, id, active).1.endpoints[id]
            == (WebhookEndpoint { active, ..s.endpoints[id] }),
{
}

} // verus!
