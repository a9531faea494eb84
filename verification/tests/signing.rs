//! The library's signing envelope: layout, determinism, cross-domain
//! replay, version gating and payload assertion.

use chainverse::signing::{
    assert_payload, canonical_preimage, check_version, network_id, signing_payload, MessageType,
    SigningDomain, SigningError, ENVELOPE_VERSION, PREIMAGE_LEN,
};
use soroban_sdk::xdr::{ContractId, ScAddress, ToXdr};
use soroban_sdk::{Address, Bytes, Env, Symbol, TryFromVal};

const TESTNET: &[u8] = b"Test SDF Network ; September 2015";
const PUBNET: &[u8] = b"Public Global Stellar Network ; September 2015";

fn domain(env: &Env, passphrase: &[u8], contract: [u8; 32], message_type: MessageType) -> SigningDomain {
    SigningDomain {
        version: ENVELOPE_VERSION,
        network_id: network_id(env, &passphrase.to_vec()),
        contract,
        message_type,
    }
}

fn body(fill: u8) -> [u8; 32] {
    [fill; 32]
}

fn sha(env: &Env, bytes: &Bytes) -> [u8; 32] {
    env.crypto().sha256(bytes).to_array()
}

fn contract_address(env: &Env, id: [u8; 32]) -> Address {
    Address::try_from_val(env, &ScAddress::Contract(ContractId(soroban_sdk::xdr::Hash(id)))).unwrap()
}

fn rebuilt_preimage(env: &Env, version: u32, d: &SigningDomain, body_hash: &[u8; 32]) -> Vec<u8> {
    let contract_hash = sha(env, &contract_address(env, d.contract).to_xdr(env));
    let message_type_hash = sha(env, &Symbol::new(env, d.message_type.tag()).to_xdr(env));
    let mut expected = Vec::new();
    expected.extend_from_slice(b"ChainVerse.Library");
    expected.extend_from_slice(&version.to_be_bytes());
    expected.extend_from_slice(&d.network_id);
    expected.extend_from_slice(&contract_hash);
    expected.extend_from_slice(&message_type_hash);
    expected.extend_from_slice(body_hash);
    expected
}

#[test]
fn signing_the_preimage_is_exactly_the_documented_length() {
    let env = Env::default();
    let d = domain(&env, TESTNET, [1; 32], MessageType::IssuerOffer);
    let preimage = canonical_preimage(&env, &d, &body(1)).unwrap();
    assert_eq!(preimage.len() as u32, PREIMAGE_LEN);
    assert_eq!(PREIMAGE_LEN, 150);
}

#[test]
fn signing_the_preimage_matches_the_documented_field_layout_byte_for_byte() {
    let env = Env::default();
    let d = domain(&env, TESTNET, [1; 32], MessageType::FineAssessment);
    let body_hash = body(7);
    let actual = canonical_preimage(&env, &d, &body_hash).unwrap();
    assert_eq!(actual, rebuilt_preimage(&env, 1, &d, &body_hash));
}

#[test]
fn the_domain_tag_occupies_the_first_eighteen_bytes() {
    let env = Env::default();
    let d = domain(&env, TESTNET, [1; 32], MessageType::IssuerOffer);
    let preimage = canonical_preimage(&env, &d, &body(1)).unwrap();
    assert_eq!(&preimage[0..18], b"ChainVerse.Library");
}

#[test]
fn the_version_is_big_endian_at_offset_eighteen() {
    let env = Env::default();
    let d = domain(&env, TESTNET, [1; 32], MessageType::IssuerOffer);
    let preimage = canonical_preimage(&env, &d, &body(1)).unwrap();
    assert_eq!(&preimage[18..22], &1u32.to_be_bytes());
}

#[test]
fn the_same_inputs_always_produce_the_same_payload() {
    let env = Env::default();
    let d = domain(&env, TESTNET, [1; 32], MessageType::MembershipClaim);
    let b = body(3);
    assert_eq!(signing_payload(&env, &d, &b).unwrap(), signing_payload(&env, &d, &b).unwrap());
}

#[test]
fn a_different_body_produces_a_different_payload() {
    let env = Env::default();
    let d = domain(&env, TESTNET, [1; 32], MessageType::MembershipClaim);
    assert_ne!(
        signing_payload(&env, &d, &body(1)).unwrap(),
        signing_payload(&env, &d, &body(2)).unwrap()
    );
}

#[test]
fn a_testnet_payload_is_not_valid_on_mainnet() {
    let env = Env::default();
    let b = body(5);
    let testnet = domain(&env, TESTNET, [1; 32], MessageType::IssuerOffer);
    let mainnet = domain(&env, PUBNET, [1; 32], MessageType::IssuerOffer);
    assert_ne!(testnet.network_id, mainnet.network_id);
    assert_ne!(
        signing_payload(&env, &testnet, &b).unwrap(),
        signing_payload(&env, &mainnet, &b).unwrap()
    );
}

#[test]
fn a_payload_for_one_contract_is_not_valid_against_another() {
    let env = Env::default();
    let b = body(5);
    assert_ne!(
        signing_payload(&env, &domain(&env, TESTNET, [1; 32], MessageType::IssuerOffer), &b).unwrap(),
        signing_payload(&env, &domain(&env, TESTNET, [2; 32], MessageType::IssuerOffer), &b).unwrap()
    );
}

#[test]
fn every_message_type_produces_a_distinct_payload() {
    let env = Env::default();
    let b = body(5);
    let types = [
        MessageType::IssuerOffer,
        MessageType::MembershipClaim,
        MessageType::FineAssessment,
        MessageType::DelegatedSession,
        MessageType::DebtSettlement,
        MessageType::PayoutWalletProof,
    ];
    for (i, left) in types.iter().enumerate() {
        for right in types.iter().skip(i + 1) {
            assert_ne!(
                signing_payload(&env, &domain(&env, TESTNET, [1; 32], *left), &b).unwrap(),
                signing_payload(&env, &domain(&env, TESTNET, [1; 32], *right), &b).unwrap(),
                "{left:?} and {right:?} share a payload"
            );
        }
    }
}

#[test]
fn a_payload_from_a_future_version_would_differ_from_this_ones() {
    let env = Env::default();
    let b = body(5);
    let d = domain(&env, TESTNET, [1; 32], MessageType::IssuerOffer);
    let v2 = rebuilt_preimage(&env, 2, &d, &b);
    let v2_payload = sha(&env, &Bytes::from_slice(&env, &v2));
    assert_ne!(signing_payload(&env, &d, &b).unwrap(), v2_payload);
}

#[test]
fn the_payload_is_the_digest_of_the_preimage() {
    let env = Env::default();
    let d = domain(&env, TESTNET, [4; 32], MessageType::PayoutWalletProof);
    let p = canonical_preimage(&env, &d, &body(6)).unwrap();
    assert_eq!(signing_payload(&env, &d, &body(6)).unwrap(), sha(&env, &Bytes::from_slice(&env, &p)));
}

#[test]
fn an_unknown_version_is_rejected_before_anything_is_hashed() {
    let env = Env::default();
    let mut d = domain(&env, TESTNET, [1; 32], MessageType::IssuerOffer);
    d.version = ENVELOPE_VERSION + 1;
    assert_eq!(check_version(&d), Err(SigningError::UnsupportedVersion));
    assert_eq!(canonical_preimage(&env, &d, &body(1)), Err(SigningError::UnsupportedVersion));
    assert_eq!(signing_payload(&env, &d, &body(1)), Err(SigningError::UnsupportedVersion));
}

#[test]
fn version_zero_is_rejected() {
    let env = Env::default();
    let mut d = domain(&env, TESTNET, [1; 32], MessageType::IssuerOffer);
    d.version = 0;
    assert_eq!(signing_payload(&env, &d, &body(1)), Err(SigningError::UnsupportedVersion));
}

#[test]
fn assert_payload_accepts_the_derived_digest() {
    let env = Env::default();
    let d = domain(&env, TESTNET, [1; 32], MessageType::DebtSettlement);
    let b = body(9);
    let payload = signing_payload(&env, &d, &b).unwrap();
    assert_eq!(assert_payload(&env, &d, &b, &payload), Ok(()));
}

#[test]
fn assert_payload_rejects_a_digest_from_another_domain() {
    let env = Env::default();
    let b = body(9);
    let testnet = domain(&env, TESTNET, [1; 32], MessageType::DebtSettlement);
    let mainnet = domain(&env, PUBNET, [1; 32], MessageType::DebtSettlement);
    let mainnet_payload = signing_payload(&env, &mainnet, &b).unwrap();
    assert_eq!(
        assert_payload(&env, &testnet, &b, &mainnet_payload),
        Err(SigningError::DomainMismatch)
    );
}

#[test]
fn assert_payload_rejects_a_digest_for_a_different_body() {
    let env = Env::default();
    let d = domain(&env, TESTNET, [1; 32], MessageType::DebtSettlement);
    let other = signing_payload(&env, &d, &body(1)).unwrap();
    assert_eq!(assert_payload(&env, &d, &body(2), &other), Err(SigningError::DomainMismatch));
}

#[test]
fn assert_payload_reports_an_unsupported_version_first() {
    let env = Env::default();
    let mut d = domain(&env, TESTNET, [1; 32], MessageType::DebtSettlement);
    d.version = 3;
    assert_eq!(assert_payload(&env, &d, &body(2), &[0u8; 32]), Err(SigningError::UnsupportedVersion));
    assert_eq!(SigningError::UnsupportedVersion.code(), 220);
    assert_eq!(SigningError::DomainMismatch.code(), 221);
}

#[test]
fn the_network_id_is_the_sha256_of_the_passphrase() {
    let env = Env::default();
    let expected = sha(&env, &Bytes::from_slice(&env, TESTNET));
    assert_eq!(network_id(&env, &TESTNET.to_vec()), expected);
}

#[test]
fn distinct_passphrases_give_distinct_network_ids() {
    let env = Env::default();
    assert_ne!(network_id(&env, &TESTNET.to_vec()), network_id(&env, &PUBNET.to_vec()));
}

#[test]
fn message_type_tags_are_the_documented_names() {
    assert_eq!(MessageType::IssuerOffer.tag(), "issuer_offer");
    assert_eq!(MessageType::PayoutWalletProof.tag(), "payout_wallet_proof");
}

fn contract_xdr_layout(id: [u8; 32]) -> Vec<u8> {
    let mut v = Vec::new();
    v.extend_from_slice(&18u32.to_be_bytes());
    v.extend_from_slice(&1u32.to_be_bytes());
    v.extend_from_slice(&id);
    v
}

fn symbol_xdr_layout(name: &str) -> Vec<u8> {
    let mut v = Vec::new();
    v.extend_from_slice(&15u32.to_be_bytes());
    v.extend_from_slice(&(name.len() as u32).to_be_bytes());
    v.extend_from_slice(name.as_bytes());
    while v.len() % 4 != 0 {
        v.push(0);
    }
    v
}

#[test]
fn the_address_and_symbol_encodings_are_the_stated_xdr_layouts() {
    let env = Env::default();
    let id = [0x3C; 32];
    let address_xdr = contract_address(&env, id).to_xdr(&env);
    let mut got = vec![0u8; address_xdr.len() as usize];
    address_xdr.copy_into_slice(&mut got);
    assert_eq!(got, contract_xdr_layout(id));
    for t in [MessageType::IssuerOffer, MessageType::FineAssessment, MessageType::PayoutWalletProof] {
        let sym = Symbol::new(&env, t.tag()).to_xdr(&env);
        let mut got = vec![0u8; sym.len() as usize];
        sym.copy_into_slice(&mut got);
        assert_eq!(got, symbol_xdr_layout(t.tag()));
    }
}

#[test]
fn the_preimage_hashes_the_stated_xdr_layouts() {
    let env = Env::default();
    let d = domain(&env, TESTNET, [0x3C; 32], MessageType::FineAssessment);
    let p = canonical_preimage(&env, &d, &body(2)).unwrap();
    assert_eq!(&p[54..86], &sha(&env, &Bytes::from_slice(&env, &contract_xdr_layout([0x3C; 32]))));
    assert_eq!(&p[86..118], &sha(&env, &Bytes::from_slice(&env, &symbol_xdr_layout("fine_assessment"))));
}
