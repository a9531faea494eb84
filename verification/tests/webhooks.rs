//! Sponsor webhooks: enrollment, secret rotation, selection, signature
//! windows, ordering and replay, retries, acknowledgements, bounded
//! history and isolation between endpoints.

use chainverse::outbox::{ContractError, ScholarshipOutboxContract};
use chainverse::webhooks::{
    DeliveryOutcome, MAX_DELIVERY_HISTORY, MAX_ENDPOINTS, MAX_ENDPOINT_TOPICS, MAX_SIGNATURE_TTL,
};
use chainverse::webhook_signing::{signing_payload, WebhookEnvelope, ENVELOPE_VERSION};
use soroban_sdk::Env;

/// A topic name, zero-padded to 32 bytes.
fn topic(name: &str) -> [u8; 32] {
    let mut out = [0u8; 32];
    out[..name.len()].copy_from_slice(name.as_bytes());
    out
}

fn hash(fill: u8) -> [u8; 32] {
    [fill; 32]
}

struct Fixture {
    env: Env,
    c: ScholarshipOutboxContract,
    now: u64,
    contract: [u8; 32],
    network: [u8; 32],
    operator: [u8; 32],
    sponsor: [u8; 32],
    relay: [u8; 32],
    other: [u8; 32],
}

impl Fixture {
    fn new() -> Fixture {
        let mut c = ScholarshipOutboxContract::new();
        let operator = [0x0A; 32];
        c.initialize(operator).unwrap();
        Fixture {
            env: Env::default(),
            c,
            now: 1_000,
            contract: [0xCC; 32],
            network: [0x0E; 32],
            operator,
            sponsor: [0x5B; 32],
            relay: [0x7E; 32],
            other: [0x07; 32],
        }
    }

    /// An endpoint subscribed to `award_reserved` and `award_paid`.
    fn endpoint(&mut self) -> u64 {
        self.c
            .register_endpoint(
                self.operator,
                self.sponsor,
                hash(10),
                hash(11),
                vec![topic("award_reserved"), topic("award_paid")],
                self.now,
            )
            .unwrap()
    }

    fn second_endpoint(&mut self) -> u64 {
        self.c
            .register_endpoint(self.operator, self.other, hash(20), hash(21), vec![topic("award_reserved")], self.now)
            .unwrap()
    }

    /// Enqueue an `award_reserved` event.
    fn event(&mut self) -> u64 {
        self.c
            .enqueue(self.operator, self.contract, topic("award_reserved"), 1, hash(1), hash(2), hash(3), self.now)
            .unwrap()
    }

    /// Enqueue an `application_submitted` event, which no endpoint wants.
    fn unsubscribed_event(&mut self) -> u64 {
        self.c
            .enqueue(self.operator, self.contract, topic("application_submitted"), 1, hash(4), hash(5), hash(6), self.now)
            .unwrap()
    }

    fn payload(&self, id: u64, event: u64, sequence: u64, expiry: u64) -> Result<[u8; 32], ContractError> {
        self.c.delivery_payload(&self.env, self.contract, self.network, id, event, sequence, expiry, self.now)
    }

    fn record(&mut self, id: u64, event: u64, sequence: u64, expiry: u64, outcome: DeliveryOutcome) -> Result<u32, ContractError> {
        self.c.record_delivery(self.operator, id, event, sequence, expiry, outcome, self.now)
    }
}

#[test]
fn an_endpoint_enrolls_with_its_owner_and_a_fresh_secret() {
    let mut f = Fixture::new();
    let id = f.endpoint();
    let e = f.c.get_endpoint(id).unwrap();
    assert_eq!(e.id, 1);
    assert_eq!(e.owner, f.sponsor);
    assert_eq!(e.url_hash, hash(10));
    assert_eq!(e.secret_hash, hash(11));
    assert!(e.active);
    assert_eq!(e.secret_epoch, 1);
    assert_eq!(e.created_at, f.now);
}

#[test]
fn a_random_caller_cannot_enroll_an_endpoint() {
    let mut f = Fixture::new();
    assert_eq!(
        f.c.register_endpoint(f.relay, f.sponsor, hash(10), hash(11), vec![topic("award_reserved")], f.now),
        Err(ContractError::NotAdmin)
    );
}

#[test]
fn a_zero_secret_commitment_is_refused() {
    let mut f = Fixture::new();
    assert_eq!(
        f.c.register_endpoint(f.operator, f.sponsor, hash(10), [0u8; 32], vec![topic("award_reserved")], f.now),
        Err(ContractError::EmptyCommitment)
    );
}

#[test]
fn a_zero_url_commitment_is_refused() {
    let mut f = Fixture::new();
    assert_eq!(
        f.c.register_endpoint(f.operator, f.sponsor, [0u8; 32], hash(11), vec![topic("award_reserved")], f.now),
        Err(ContractError::EmptyCommitment)
    );
}

#[test]
fn an_endpoint_subscribing_to_nothing_is_refused() {
    let mut f = Fixture::new();
    assert_eq!(
        f.c.register_endpoint(f.operator, f.sponsor, hash(10), hash(11), vec![], f.now),
        Err(ContractError::NoTopics)
    );
}

#[test]
fn an_oversized_subscription_is_refused() {
    let mut f = Fixture::new();
    let names = [
        "t00", "t01", "t02", "t03", "t04", "t05", "t06", "t07", "t08", "t09", "t10", "t11", "t12", "t13", "t14",
        "t15", "t16",
    ];
    let topics: Vec<[u8; 32]> = names.iter().map(|n| topic(n)).collect();
    assert_eq!(topics.len() as u32, MAX_ENDPOINT_TOPICS + 1);
    assert_eq!(
        f.c.register_endpoint(f.operator, f.sponsor, hash(10), hash(11), topics, f.now),
        Err(ContractError::TooManyTopics)
    );
}

#[test]
fn exactly_the_topic_cap_is_accepted() {
    let mut f = Fixture::new();
    let topics: Vec<[u8; 32]> = (0..MAX_ENDPOINT_TOPICS).map(|i| topic(&format!("t{i:02}"))).collect();
    assert!(f.c.register_endpoint(f.operator, f.sponsor, hash(10), hash(11), topics, f.now).is_ok());
}

#[test]
fn endpoint_ids_are_distinct() {
    let mut f = Fixture::new();
    let first = f.endpoint();
    let second = f.second_endpoint();
    assert_ne!(first, second);
}

#[test]
fn rotation_bumps_the_epoch_and_replaces_the_commitment() {
    let mut f = Fixture::new();
    let id = f.endpoint();
    let epoch = f.c.rotate_secret(f.operator, id, hash(77)).unwrap();
    assert_eq!(epoch, 2);
    let e = f.c.get_endpoint(id).unwrap();
    assert_eq!(e.secret_epoch, 2);
    assert_eq!(e.secret_hash, hash(77));
    assert_eq!(e.last_sequence, 0);
}

#[test]
fn rotation_invalidates_a_signature_captured_under_the_old_secret() {
    let mut f = Fixture::new();
    let id = f.endpoint();
    let event = f.event();
    let expiry = f.now + 600;
    let before = f.payload(id, event, 1, expiry).unwrap();
    f.c.rotate_secret(f.operator, id, hash(77)).unwrap();
    let after = f.payload(id, event, 1, expiry).unwrap();
    assert_ne!(before, after);
}

#[test]
fn a_non_operator_cannot_rotate_a_secret() {
    let mut f = Fixture::new();
    let id = f.endpoint();
    assert_eq!(f.c.rotate_secret(f.relay, id, hash(77)), Err(ContractError::NotAdmin));
    assert_eq!(f.c.get_endpoint(id).unwrap().secret_hash, hash(11));
}

#[test]
fn rotation_of_an_unknown_endpoint_is_refused() {
    let mut f = Fixture::new();
    assert_eq!(f.c.rotate_secret(f.operator, 99, hash(77)), Err(ContractError::EndpointNotFound));
}

#[test]
fn rotation_to_a_zero_secret_is_refused() {
    let mut f = Fixture::new();
    let id = f.endpoint();
    assert_eq!(f.c.rotate_secret(f.operator, id, [0u8; 32]), Err(ContractError::EmptyCommitment));
    assert_eq!(f.c.get_endpoint(id).unwrap().secret_hash, hash(11));
}

#[test]
fn a_subscribed_event_is_deliverable() {
    let mut f = Fixture::new();
    let id = f.endpoint();
    let event = f.event();
    assert!(f.c.deliverable(id, event));
}

#[test]
fn an_unsubscribed_event_is_not_deliverable() {
    let mut f = Fixture::new();
    let id = f.endpoint();
    let other = f.unsubscribed_event();
    assert!(!f.c.deliverable(id, other));
}

#[test]
fn an_inactive_endpoint_is_deliverable_to_nobody() {
    let mut f = Fixture::new();
    let id = f.endpoint();
    let event = f.event();
    f.c.set_endpoint_active(f.operator, id, false).unwrap();
    assert!(!f.c.deliverable(id, event));
}

#[test]
fn deactivation_keeps_the_delivery_history() {
    let mut f = Fixture::new();
    let id = f.endpoint();
    let event = f.event();
    let expiry = f.now + 600;
    f.record(id, event, 1, expiry, DeliveryOutcome::Delivered).unwrap();
    f.c.set_endpoint_active(f.operator, id, false).unwrap();
    assert_eq!(f.c.delivery_history_count(id), 1);
    assert_eq!(f.c.get_delivery(id, 1).unwrap().event_id, event);
}

#[test]
fn a_non_operator_cannot_deactivate_an_endpoint() {
    let mut f = Fixture::new();
    let id = f.endpoint();
    assert_eq!(f.c.set_endpoint_active(f.relay, id, false), Err(ContractError::NotAdmin));
    assert!(f.c.get_endpoint(id).unwrap().active);
}

#[test]
fn an_expiry_beyond_the_maximum_window_is_refused() {
    let mut f = Fixture::new();
    let id = f.endpoint();
    let event = f.event();
    assert_eq!(f.payload(id, event, 1, f.now + MAX_SIGNATURE_TTL + 1), Err(ContractError::InvalidExpiry));
}

#[test]
fn an_expiry_in_the_past_is_refused() {
    let mut f = Fixture::new();
    let id = f.endpoint();
    let event = f.event();
    let then = f.now;
    f.now += 100;
    assert_eq!(f.payload(id, event, 1, then), Err(ContractError::InvalidExpiry));
}

#[test]
fn the_maximum_window_is_accepted() {
    let mut f = Fixture::new();
    let id = f.endpoint();
    let event = f.event();
    assert!(f.payload(id, event, 1, f.now + MAX_SIGNATURE_TTL).is_ok());
}

#[test]
fn a_payload_for_an_unknown_event_is_refused() {
    let mut f = Fixture::new();
    let id = f.endpoint();
    assert_eq!(f.payload(id, 404, 1, f.now + 600), Err(ContractError::EventNotFound));
}

#[test]
fn a_payload_for_an_unknown_endpoint_is_refused() {
    let mut f = Fixture::new();
    let event = f.event();
    assert_eq!(f.payload(9, event, 1, f.now + 600), Err(ContractError::EndpointNotFound));
}

#[test]
fn a_payload_for_an_unsubscribed_event_is_refused() {
    let mut f = Fixture::new();
    let id = f.endpoint();
    let other = f.unsubscribed_event();
    assert_eq!(f.payload(id, other, 1, f.now + 600), Err(ContractError::NotSubscribed));
}

#[test]
fn a_payload_for_an_inactive_endpoint_is_refused() {
    let mut f = Fixture::new();
    let id = f.endpoint();
    let event = f.event();
    f.c.set_endpoint_active(f.operator, id, false).unwrap();
    assert_eq!(f.payload(id, event, 1, f.now + 600), Err(ContractError::EndpointInactive));
}

#[test]
fn the_payload_is_derived_not_supplied() {
    let mut f = Fixture::new();
    let id = f.endpoint();
    let event = f.event();
    let expiry = f.now + 600;
    let a = f.payload(id, event, 1, expiry).unwrap();
    let b = f.payload(id, event, 1, expiry).unwrap();
    assert_eq!(a, b, "a sponsor must be able to recompute the digest");
}

#[test]
fn the_payload_is_the_signed_envelope_of_the_event() {
    let mut f = Fixture::new();
    let id = f.endpoint();
    let event = f.event();
    let expiry = f.now + 600;
    let envelope = WebhookEnvelope {
        version: ENVELOPE_VERSION,
        network_id: f.network,
        contract: f.contract,
        endpoint_id: id,
        secret_epoch: 1,
        event_id: event,
        sequence: 1,
        expires_at: expiry,
    };
    assert_eq!(f.payload(id, event, 1, expiry).unwrap(), signing_payload(&f.env, &envelope, &hash(3)));
}

#[test]
fn a_signature_cannot_be_minted_for_a_future_sequence() {
    let mut f = Fixture::new();
    let id = f.endpoint();
    let event = f.event();
    assert_eq!(f.payload(id, event, 5, f.now + 600), Err(ContractError::SequenceRegression));
}

#[test]
fn a_signature_cannot_be_minted_for_a_replayed_sequence() {
    let mut f = Fixture::new();
    let id = f.endpoint();
    let event = f.event();
    f.record(id, event, 1, f.now + 600, DeliveryOutcome::Delivered).unwrap();
    assert_eq!(f.payload(id, event, 1, f.now + 600), Err(ContractError::SequenceRegression));
}

#[test]
fn a_replayed_delivery_is_refused() {
    let mut f = Fixture::new();
    let id = f.endpoint();
    let event = f.event();
    let expiry = f.now + 600;
    f.record(id, event, 1, expiry, DeliveryOutcome::Delivered).unwrap();
    assert_eq!(f.record(id, event, 1, expiry, DeliveryOutcome::Delivered), Err(ContractError::SequenceRegression));
    assert_eq!(f.c.delivery_history_count(id), 1);
}

#[test]
fn sequences_are_gap_free() {
    let mut f = Fixture::new();
    let id = f.endpoint();
    let event = f.event();
    f.record(id, event, 1, f.now + 600, DeliveryOutcome::Delivered).unwrap();
    assert_eq!(f.record(id, event, 3, f.now + 600, DeliveryOutcome::Delivered), Err(ContractError::SequenceRegression));
}

#[test]
fn an_expired_delivery_cannot_be_recorded() {
    let mut f = Fixture::new();
    let id = f.endpoint();
    let event = f.event();
    let expiry = f.now + 600;
    f.now += 601;
    assert_eq!(f.record(id, event, 1, expiry, DeliveryOutcome::Delivered), Err(ContractError::ExpiredDelivery));
    assert_eq!(f.c.delivery_history_count(id), 0);
}

#[test]
fn a_non_operator_cannot_record_a_delivery() {
    let mut f = Fixture::new();
    let id = f.endpoint();
    let event = f.event();
    assert_eq!(
        f.c.record_delivery(f.relay, id, event, 1, f.now + 600, DeliveryOutcome::Delivered, f.now),
        Err(ContractError::NotAdmin)
    );
}

#[test]
fn an_unsubscribed_event_cannot_be_delivered_even_by_the_operator() {
    let mut f = Fixture::new();
    let id = f.endpoint();
    let other = f.unsubscribed_event();
    for outcome in [DeliveryOutcome::Delivered, DeliveryOutcome::Failed] {
        assert_eq!(f.record(id, other, 1, f.now + 600, outcome), Err(ContractError::NotSubscribed));
    }
}

#[test]
fn a_retry_gets_a_new_sequence_and_an_incrementing_attempt() {
    let mut f = Fixture::new();
    let id = f.endpoint();
    let event = f.event();
    let expiry = f.now + 600;
    assert_eq!(f.record(id, event, 1, expiry, DeliveryOutcome::Failed), Ok(1));
    assert_eq!(f.record(id, event, 2, expiry, DeliveryOutcome::Delivered), Ok(2));
    assert_eq!(f.c.get_attempts(id, event), 2);
    assert_eq!(f.c.get_delivery(id, 2).unwrap().attempt, 2);
    assert_eq!(f.c.get_delivery(id, 2).unwrap().outcome, DeliveryOutcome::Delivered);
    assert_eq!(f.c.get_delivery(id, 1).unwrap().outcome, DeliveryOutcome::Failed);
}

#[test]
fn a_skipped_delivery_is_recorded_as_such() {
    let mut f = Fixture::new();
    let id = f.endpoint();
    let other = f.unsubscribed_event();
    f.record(id, other, 1, f.now + 600, DeliveryOutcome::Skipped).unwrap();
    assert_eq!(f.c.get_delivery(id, 1).unwrap().outcome, DeliveryOutcome::Skipped);
}

#[test]
fn the_sponsor_acknowledges_its_own_delivery() {
    let mut f = Fixture::new();
    let id = f.endpoint();
    let event = f.event();
    let then = f.now;
    f.record(id, event, 1, f.now + 600, DeliveryOutcome::Delivered).unwrap();
    f.now += 30;
    f.c.acknowledge_delivery(f.sponsor, id, 1, f.now).unwrap();
    assert_eq!(f.c.get_acked_sequence(id), 1);
    assert_eq!(f.c.get_delivery(id, 1).unwrap().acked_at, then + 30);
}

#[test]
fn one_sponsor_cannot_acknowledge_anothers_endpoint() {
    let mut f = Fixture::new();
    let id = f.endpoint();
    let event = f.event();
    f.record(id, event, 1, f.now + 600, DeliveryOutcome::Delivered).unwrap();
    assert_eq!(f.c.acknowledge_delivery(f.other, id, 1, f.now), Err(ContractError::NotEndpointOwner));
}

#[test]
fn a_replayed_acknowledgement_is_refused() {
    let mut f = Fixture::new();
    let id = f.endpoint();
    let event = f.event();
    f.record(id, event, 1, f.now + 600, DeliveryOutcome::Delivered).unwrap();
    f.c.acknowledge_delivery(f.sponsor, id, 1, f.now).unwrap();
    assert_eq!(f.c.acknowledge_delivery(f.sponsor, id, 1, f.now), Err(ContractError::ReplayDetected));
}

#[test]
fn an_acknowledgement_cannot_move_backwards() {
    let mut f = Fixture::new();
    let id = f.endpoint();
    let event = f.event();
    f.record(id, event, 1, f.now + 600, DeliveryOutcome::Delivered).unwrap();
    f.record(id, event, 2, f.now + 600, DeliveryOutcome::Delivered).unwrap();
    f.c.acknowledge_delivery(f.sponsor, id, 2, f.now).unwrap();
    assert_eq!(f.c.acknowledge_delivery(f.sponsor, id, 1, f.now), Err(ContractError::ReplayDetected));
}

#[test]
fn acknowledging_a_delivery_that_was_never_made_is_refused() {
    let mut f = Fixture::new();
    let id = f.endpoint();
    assert_eq!(f.c.acknowledge_delivery(f.sponsor, id, 1, f.now), Err(ContractError::DeliveryNotFound));
}

#[test]
fn acknowledging_sequence_zero_is_refused() {
    let mut f = Fixture::new();
    let id = f.endpoint();
    assert_eq!(f.c.acknowledge_delivery(f.sponsor, id, 0, f.now), Err(ContractError::DeliveryNotFound));
}

#[test]
fn acknowledging_at_an_unknown_endpoint_is_refused() {
    let mut f = Fixture::new();
    assert_eq!(f.c.acknowledge_delivery(f.sponsor, 3, 1, f.now), Err(ContractError::EndpointNotFound));
}

#[test]
fn history_is_bounded_and_evicts_the_oldest() {
    let mut f = Fixture::new();
    let id = f.endpoint();
    let event = f.event();
    let expiry = f.now + MAX_SIGNATURE_TTL;
    for seq in 1u64..=MAX_DELIVERY_HISTORY as u64 {
        f.record(id, event, seq, expiry, DeliveryOutcome::Delivered).unwrap();
    }
    assert_eq!(f.c.delivery_history_count(id), MAX_DELIVERY_HISTORY);
    assert_eq!(f.c.delivery_history_floor(id), 1);
    f.record(id, event, MAX_DELIVERY_HISTORY as u64 + 1, expiry, DeliveryOutcome::Delivered).unwrap();
    assert_eq!(f.c.delivery_history_count(id), MAX_DELIVERY_HISTORY);
    assert_eq!(f.c.delivery_history_floor(id), 2);
    assert!(f.c.get_delivery(id, 1).is_err());
    assert!(f.c.get_delivery(id, 2).is_ok());
}

#[test]
fn attempt_counts_survive_history_eviction() {
    let mut f = Fixture::new();
    let id = f.endpoint();
    let event = f.event();
    let expiry = f.now + MAX_SIGNATURE_TTL;
    for seq in 1u64..=MAX_DELIVERY_HISTORY as u64 + 1 {
        f.record(id, event, seq, expiry, DeliveryOutcome::Delivered).unwrap();
    }
    assert!(f.c.get_delivery(id, 1).is_err());
    assert_eq!(f.c.get_attempts(id, event), MAX_DELIVERY_HISTORY + 1);
}

#[test]
fn endpoints_are_capped() {
    let mut f = Fixture::new();
    for _ in 0..MAX_ENDPOINTS {
        f.endpoint();
    }
    assert_eq!(
        f.c.register_endpoint(f.operator, f.other, hash(30), hash(31), vec![topic("award_reserved")], f.now),
        Err(ContractError::TooManyEndpoints)
    );
}

#[test]
fn endpoints_have_independent_sequences_and_acks() {
    let mut f = Fixture::new();
    let first = f.endpoint();
    let second = f.second_endpoint();
    let event = f.event();
    let expiry = f.now + 600;
    f.record(first, event, 1, expiry, DeliveryOutcome::Delivered).unwrap();
    f.record(second, event, 1, expiry, DeliveryOutcome::Delivered).unwrap();
    f.c.acknowledge_delivery(f.sponsor, first, 1, f.now).unwrap();
    assert_eq!(f.c.get_acked_sequence(first), 1);
    assert_eq!(f.c.get_acked_sequence(second), 0);
    assert_eq!(f.c.get_delivery(second, 1).unwrap().acked_at, 0);
}

#[test]
fn a_signature_for_one_endpoint_does_not_verify_for_another() {
    let mut f = Fixture::new();
    let first = f.endpoint();
    let second = f.second_endpoint();
    let event = f.event();
    let expiry = f.now + 600;
    let a = f.payload(first, event, 1, expiry).unwrap();
    let b = f.payload(second, event, 1, expiry).unwrap();
    assert_ne!(a, b);
}

#[test]
fn webhook_error_codes_are_stable() {
    assert_eq!(ContractError::EndpointNotFound.code(), 22);
    assert_eq!(ContractError::DeliveryNotFound.code(), 33);
}
