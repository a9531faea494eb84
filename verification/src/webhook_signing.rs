//! The canonical signing envelope for sponsor webhooks.
//!
//! A delivery signature commits to the SHA-256 of a fixed-width preimage:
//!
//! | Offset | Size | Field                                                |
//! |--------|------|------------------------------------------------------|
//! | 0      | 25   | domain tag, `ChainVerse.ScholarWebhook`               |
//! | 25     | 4    | envelope version, `u32` big-endian                    |
//! | 29     | 32   | network id, `sha256(network passphrase)`              |
//! | 61     | 32   | `sha256(contract address XDR)`                        |
//! | 93     | 8    | endpoint id, `u64` big-endian                         |
//! | 101    | 4    | secret epoch, `u32` big-endian                        |
//! | 105    | 8    | event id, `u64` big-endian                            |
//! | 113    | 8    | sequence, `u64` big-endian                            |
//! | 121    | 8    | expiry, `u64` big-endian ledger seconds               |
//! | 129    | 32   | payload hash, `sha256` of the delivered body          |
//!
//! It has its own tag and length, so it can never coincide with the
//! library's envelope (see [`lemma_never_a_library_preimage`]).
use vstd::prelude::*;
use soroban_sdk::Env;
use crate::crypto::{
    be_u32, be_u64, contract_address_xdr, lemma_be_u32_injective, lemma_be_u64_injective, push_be_u32,
    push_be_u64, push_bytes, sha256, sha256_of,
};
use crate::signing::contract_hash;
use crate::table::Bytes32;

verus! {

/// The only envelope version this build produces.
pub const ENVELOPE_VERSION: u32 = 1;

/// Length of a canonical preimage, in bytes.
pub const PREIMAGE_LEN: u32 = 161;

/// Everything a delivery signature commits to, except the body.
#[derive(Copy, Clone, Debug, PartialEq, Eq)]
pub struct WebhookEnvelope {
    /// Envelope version.
    pub version: u32,
    /// The Stellar network id, taken from the ledger.
    pub network_id: Bytes32,
    /// The contract id of the outbox the signature is valid against.
    pub contract: Bytes32,
    /// Which endpoint the delivery is for.
    pub endpoint_id: u64,
    /// Which generation of the endpoint's secret produced it.
    pub secret_epoch: u32,
    /// The event being delivered.
    pub event_id: u64,
    /// The endpoint's strictly increasing delivery counter.
    pub sequence: u64,
    /// Ledger second after which the signature is no longer acceptable.
    pub expires_at: u64,
}

/// The domain tag, "ChainVerse.ScholarWebhook" in ASCII.
pub open spec fn domain_tag() -> Seq<u8> {
    seq![
        67u8, 104, 97, 105, 110, 86, 101, 114, 115, 101, 46,
        83, 99, 104, 111, 108, 97, 114, 87, 101, 98, 104, 111, 111, 107,
    ]
}

/// The preimage laid out field by field, with the contract already hashed.
pub open spec fn preimage_layout(e: WebhookEnvelope, contract_digest: Bytes32, payload_hash: Bytes32) -> Seq<u8> {
    domain_tag() + be_u32(e.version) + e.network_id@ + contract_digest@ + be_u64(e.endpoint_id) + be_u32(
        e.secret_epoch,
    ) + be_u64(e.event_id) + be_u64(e.sequence) + be_u64(e.expires_at) + payload_hash@
}

/// The preimage of `e` and `payload_hash`.
pub open spec fn preimage_of(e: WebhookEnvelope, payload_hash: Bytes32) -> Seq<u8> {
    preimage_layout(e, contract_hash(e.contract), payload_hash)
}

/// The digest a relay signs for `e` and `payload_hash`.
pub open spec fn payload_of(e: WebhookEnvelope, payload_hash: Bytes32) -> Bytes32 {
    sha256_of(preimage_of(e, payload_hash))
}

/// The exact bytes that get hashed.
pub fn canonical_preimage(env: &Env, envelope: &WebhookEnvelope, payload_hash: &Bytes32) -> (p: Vec<u8>)
    ensures
        p@ == preimage_of(*envelope, *payload_hash),
{
    broadcast use vstd::array::group_array_axioms;

    let contract_xdr = contract_address_xdr(env, &envelope.contract);
    let contract_digest = sha256(env, &contract_xdr);
    let mut preimage: Vec<u8> = vec![
        67u8, 104, 97, 105, 110, 86, 101, 114, 115, 101, 46,
        83, 99, 104, 111, 108, 97, 114, 87, 101, 98, 104, 111, 111, 107,
    ];
    assert(preimage@ =~= domain_tag());
    push_be_u32(&mut preimage, envelope.version);
    push_bytes(&mut preimage, envelope.network_id.as_slice());
    push_bytes(&mut preimage, contract_digest.as_slice());
    push_be_u64(&mut preimage, envelope.endpoint_id);
    push_be_u32(&mut preimage, envelope.secret_epoch);
    push_be_u64(&mut preimage, envelope.event_id);
    push_be_u64(&mut preimage, envelope.sequence);
    push_be_u64(&mut preimage, envelope.expires_at);
    push_bytes(&mut preimage, payload_hash.as_slice());
    preimage
}

/// The 32-byte digest a relay signs and a sponsor verifies.
pub fn signing_payload(env: &Env, envelope: &WebhookEnvelope, payload_hash: &Bytes32) -> (d: Bytes32)
    ensures
        d == payload_of(*envelope, *payload_hash),
{
    let preimage = canonical_preimage(env, envelope, payload_hash);
    sha256(env, &preimage)
}

/// Every field has a fixed width, so two preimages are equal only when every
/// field is: a signature for one endpoint, secret epoch, event, sequence,
/// expiry, body, network or deployment commits to different bytes than one
/// for any other.
pub proof fn lemma_preimage_determines_its_fields(
    a: WebhookEnvelope,
    contract_a: Bytes32,
    payload_a: Bytes32,
    b: WebhookEnvelope,
    contract_b: Bytes32,
    payload_b: Bytes32,
)
    requires
        preimage_layout(a, contract_a, payload_a) == preimage_layout(b, contract_b, payload_b),
    ensures
        a.version == b.version,
        a.network_id == b.network_id,
        contract_a == contract_b,
        a.endpoint_id == b.endpoint_id,
        a.secret_epoch == b.secret_epoch,
        a.event_id == b.event_id,
        a.sequence == b.sequence,
        a.expires_at == b.expires_at,
        payload_a == payload_b,
{
    broadcast use vstd::array::group_array_axioms;

    let pa = preimage_layout(a, contract_a, payload_a);
    let pb = preimage_layout(b, contract_b, payload_b);
    assert(pa.subrange(25, 29) =~= be_u32(a.version));
    assert(pb.subrange(25, 29) =~= be_u32(b.version));
    assert(pa.subrange(29, 61) =~= a.network_id@);
    assert(pb.subrange(29, 61) =~= b.network_id@);
    assert(pa.subrange(61, 93) =~= contract_a@);
    assert(pb.subrange(61, 93) =~= contract_b@);
    assert(pa.subrange(93, 101) =~= be_u64(a.endpoint_id));
    assert(pb.subrange(93, 101) =~= be_u64(b.endpoint_id));
    assert(pa.subrange(101, 105) =~= be_u32(a.secret_epoch));
    assert(pb.subrange(101, 105) =~= be_u32(b.secret_epoch));
    assert(pa.subrange(105, 113) =~= be_u64(a.event_id));
    assert(pb.subrange(105, 113) =~= be_u64(b.event_id));
    assert(pa.subrange(113, 121) =~= be_u64(a.sequence));
    assert(pb.subrange(113, 121) =~= be_u64(b.sequence));
    assert(pa.subrange(121, 129) =~= be_u64(a.expires_at));
    assert(pb.subrange(121, 129) =~= be_u64(b.expires_at));
    assert(pa.subrange(129, 161) =~= payload_a@);
    assert(pb.subrange(129, 161) =~= payload_b@);
    lemma_be_u32_injective(a.version, b.version);
    lemma_be_u32_injective(a.secret_epoch, b.secret_epoch);
    lemma_be_u64_injective(a.endpoint_id, b.endpoint_id);
    lemma_be_u64_injective(a.event_id, b.event_id);
    lemma_be_u64_injective(a.sequence, b.sequence);
    lemma_be_u64_injective(a.expires_at, b.expires_at);
    assert(a.network_id =~= b.network_id);
    assert(contract_a =~= contract_b);
    assert(payload_a =~= payload_b);
}

/// A preimage is exactly [`PREIMAGE_LEN`] bytes long.
pub proof fn lemma_preimage_has_the_documented_length(e: WebhookEnvelope, payload_hash: Bytes32)
    ensures
        preimage_of(e, payload_hash).len() == PREIMAGE_LEN,
{
}

/// A webhook preimage is never a preimage of the library's signing
/// envelope, whatever the fields of either: a library signature can never
/// be presented as a webhook signature over the same bytes.
pub proof fn lemma_never_a_library_preimage(
    e: WebhookEnvelope,
    payload_hash: Bytes32,
    domain: crate::signing::SigningDomain,
    body_hash: Bytes32,
)
    requires
        crate::signing::preimage_result(domain, body_hash) is Ok,
    ensures
        crate::signing::preimage_result(domain, body_hash)->Ok_0 != preimage_of(e, payload_hash),
{
    crate::signing::lemma_preimage_has_the_documented_length(domain, body_hash);
}

} // verus!
