//! The webhook signing envelope: layout, per-field commitment, separation
//! from the library's envelope, determinism.

use chainverse::webhook_signing::{canonical_preimage, signing_payload, WebhookEnvelope, ENVELOPE_VERSION, PREIMAGE_LEN};
use soroban_sdk::xdr::{ContractId, ScAddress, ToXdr};
use soroban_sdk::{Address, Bytes, Env, TryFromVal};

const TESTNET: [u8; 32] = [1; 32];
const PUBNET: [u8; 32] = [2; 32];

fn envelope(network_id: [u8; 32], contract: [u8; 32]) -> WebhookEnvelope {
    WebhookEnvelope {
        version: ENVELOPE_VERSION,
        network_id,
        contract,
        endpoint_id: 7,
        secret_epoch: 1,
        event_id: 42,
        sequence: 9,
        expires_at: 1_700_000_000,
    }
}

fn body(fill: u8) -> [u8; 32] {
    [fill; 32]
}

#[test]
fn the_preimage_is_the_documented_length() {
    let env = Env::default();
    let preimage = canonical_preimage(&env, &envelope(TESTNET, [3; 32]), &body(1));
    assert_eq!(preimage.len() as u32, PREIMAGE_LEN);
}

#[test]
fn the_preimage_starts_with_the_domain_tag() {
    let env = Env::default();
    let preimage = canonical_preimage(&env, &envelope(TESTNET, [3; 32]), &body(1));
    assert_eq!(&preimage[0..25], b"ChainVerse.ScholarWebhook");
}

#[test]
fn every_field_changes_the_digest() {
    let env = Env::default();
    let base = envelope(TESTNET, [3; 32]);
    let hash = body(1);
    let baseline = signing_payload(&env, &base, &hash);
    let mutates: [(&str, WebhookEnvelope, [u8; 32]); 9] = [
        ("version", WebhookEnvelope { version: 2, ..base }, hash),
        ("network_id", WebhookEnvelope { network_id: PUBNET, ..base }, hash),
        ("contract", WebhookEnvelope { contract: [4; 32], ..base }, hash),
        ("endpoint_id", WebhookEnvelope { endpoint_id: 8, ..base }, hash),
        ("secret_epoch", WebhookEnvelope { secret_epoch: 2, ..base }, hash),
        ("event_id", WebhookEnvelope { event_id: 43, ..base }, hash),
        ("sequence", WebhookEnvelope { sequence: 10, ..base }, hash),
        ("expires_at", WebhookEnvelope { expires_at: 1_700_000_001, ..base }, hash),
        ("payload", base, body(2)),
    ];
    for (field, e, h) in mutates.iter() {
        assert_ne!(signing_payload(&env, e, h), baseline, "changing {field} must change the digest");
    }
}

#[test]
fn cross_domain_signatures_differ() {
    let env = Env::default();
    let contract = [3u8; 32];
    let web = envelope(TESTNET, contract);
    let hash = body(1);
    let web_digest = signing_payload(&env, &web, &hash);

    let address =
        Address::try_from_val(&env, &ScAddress::Contract(ContractId(soroban_sdk::xdr::Hash(contract)))).unwrap();
    let mut lib = Bytes::new(&env);
    lib.extend_from_array(b"ChainVerse.Library");
    lib.extend_from_array(&1u32.to_be_bytes());
    lib.extend_from_array(&web.network_id);
    lib.extend_from_array(&env.crypto().sha256(&address.to_xdr(&env)).to_array());
    lib.extend_from_array(&[0u8; 32]);
    lib.extend_from_array(&hash);
    let lib_digest = env.crypto().sha256(&lib).to_array();
    assert_ne!(web_digest, lib_digest);
}

#[test]
fn the_digest_is_deterministic() {
    let env = Env::default();
    let e = envelope(TESTNET, [3; 32]);
    let h = body(7);
    assert_eq!(signing_payload(&env, &e, &h), signing_payload(&env, &e, &h));
}

#[test]
fn a_different_network_yields_a_different_digest() {
    let env = Env::default();
    let h = body(7);
    assert_ne!(
        signing_payload(&env, &envelope(TESTNET, [3; 32]), &h),
        signing_payload(&env, &envelope(PUBNET, [3; 32]), &h)
    );
}

#[test]
fn a_different_deployment_yields_a_different_digest() {
    let env = Env::default();
    let h = body(7);
    assert_ne!(
        signing_payload(&env, &envelope(TESTNET, [3; 32]), &h),
        signing_payload(&env, &envelope(TESTNET, [4; 32]), &h)
    );
}

#[test]
fn the_preimage_lays_out_every_field_big_endian() {
    let env = Env::default();
    let e = envelope(TESTNET, [3; 32]);
    let p = canonical_preimage(&env, &e, &body(1));
    assert_eq!(&p[25..29], &1u32.to_be_bytes());
    assert_eq!(&p[29..61], &TESTNET);
    assert_eq!(&p[93..101], &7u64.to_be_bytes());
    assert_eq!(&p[101..105], &1u32.to_be_bytes());
    assert_eq!(&p[105..113], &42u64.to_be_bytes());
    assert_eq!(&p[113..121], &9u64.to_be_bytes());
    assert_eq!(&p[121..129], &1_700_000_000u64.to_be_bytes());
    assert_eq!(&p[129..161], &body(1));
    let digest = env.crypto().sha256(&Bytes::from_slice(&env, &p)).to_array();
    assert_eq!(signing_payload(&env, &e, &body(1)), digest);
}
