//! The canonical, domain-separated signing envelope of the library.
//!
//! Every off-chain signature the library verifies is taken over
//! [`signing_payload`], the SHA-256 of a fixed-width preimage:
//!
//! | Offset | Size | Field                                               |
//! |--------|------|-----------------------------------------------------|
//! | 0      | 18   | domain tag, the ASCII bytes `ChainVerse.Library`     |
//! | 18     | 4    | envelope version, `u32` big-endian                   |
//! | 22     | 32   | network id, `sha256(network passphrase)`             |
//! | 54     | 32   | `sha256(contract address XDR)`                       |
//! | 86     | 32   | `sha256(message type XDR)`                           |
//! | 118    | 32   | body hash                                            |
//!
//! The contract is named by its 32-byte contract id; its address XDR and the
//! message type's symbol XDR come from the SDK.
use vstd::prelude::*;
use soroban_sdk::Env;
use crate::crypto::{
    be_u32, contract_address_xdr, contract_address_xdr_of, is_symbol_name, lemma_be_u32_injective,
    push_be_u32, push_bytes, sha256, sha256_of, symbol_xdr, symbol_xdr_of,
};
use crate::table::{bytes32_eq, Bytes32};

verus! {

/// The only envelope version this build accepts.
pub const ENVELOPE_VERSION: u32 = 1;

/// Length of a canonical preimage, in bytes.
pub const PREIMAGE_LEN: u32 = 150;

/// Failures when building or checking a signing envelope.
#[derive(Copy, Clone, Debug, PartialEq, Eq, Structural)]
pub enum SigningError {
    /// The envelope version is not one this build understands.
    UnsupportedVersion,
    /// The recomputed payload does not match the one presented.
    DomainMismatch,
}

impl SigningError {
    /// The stable numeric code a client sees.
    pub fn code(self) -> (c: u32)
        ensures
            c == match self {
                SigningError::UnsupportedVersion => 220u32,
                SigningError::DomainMismatch => 221u32,
            },
    {
        match self {
            SigningError::UnsupportedVersion => 220,
            SigningError::DomainMismatch => 221,
        }
    }
}

/// What a signature is for.
#[derive(Copy, Clone, Debug, PartialEq, Eq, Structural)]
pub enum MessageType {
    /// A rights-holder's offer to license a work.
    IssuerOffer,
    /// A patron's claim to institutional membership.
    MembershipClaim,
    /// A librarian's assessment of a fine.
    FineAssessment,
    /// A scoped, time-limited delegation of reading rights.
    DelegatedSession,
    /// A patron's authorization to settle a debt from their deposit.
    DebtSettlement,
    /// A scholarship recipient's proof of control over a payout wallet.
    PayoutWalletProof,
}

/// The stable short name of a message type.
pub open spec fn message_type_name(t: MessageType) -> Seq<char> {
    match t {
        MessageType::IssuerOffer => "issuer_offer"@,
        MessageType::MembershipClaim => "membership_claim"@,
        MessageType::FineAssessment => "fine_assessment"@,
        MessageType::DelegatedSession => "delegated_session"@,
        MessageType::DebtSettlement => "debt_settlement"@,
        MessageType::PayoutWalletProof => "payout_wallet_proof"@,
    }
}

/// Every message type's name is a valid symbol name.
proof fn lemma_message_type_names_are_symbols(t: MessageType)
    ensures
        is_symbol_name(message_type_name(t)),
{
    reveal_strlit("issuer_offer");
    reveal_strlit("membership_claim");
    reveal_strlit("fine_assessment");
    reveal_strlit("delegated_session");
    reveal_strlit("debt_settlement");
    reveal_strlit("payout_wallet_proof");
}

impl MessageType {
    /// The stable short name hashed as the message-type component, spelled
    /// out so that reordering the variants can never change a payload.
    pub fn tag(self) -> (name: &'static str)
        ensures
            name@ == message_type_name(self),
    {
        match self {
            MessageType::IssuerOffer => "issuer_offer",
            MessageType::MembershipClaim => "membership_claim",
            MessageType::FineAssessment => "fine_assessment",
            MessageType::DelegatedSession => "delegated_session",
            MessageType::DebtSettlement => "debt_settlement",
            MessageType::PayoutWalletProof => "payout_wallet_proof",
        }
    }
}

/// The domain a signature is scoped to.
#[derive(Copy, Clone, Debug, PartialEq, Eq)]
pub struct SigningDomain {
    /// Envelope version; must equal [`ENVELOPE_VERSION`].
    pub version: u32,
    /// `sha256(network passphrase)`, the Stellar network id.
    pub network_id: Bytes32,
    /// The contract id of the contract the signature is valid against.
    pub contract: Bytes32,
    /// What the signature authorizes.
    pub message_type: MessageType,
}

/// Computes the Stellar network id from a network passphrase's bytes.
pub fn network_id(env: &Env, passphrase: &Vec<u8>) -> (id: Bytes32)
    ensures
        id == sha256_of(passphrase@),
{
    sha256(env, passphrase)
}

/// Rejects an envelope whose version this build does not understand.
pub fn check_version(domain: &SigningDomain) -> (r: Result<(), SigningError>)
    ensures
        r == if domain.version == ENVELOPE_VERSION {
            Ok::<(), SigningError>(())
        } else {
            Err(SigningError::UnsupportedVersion)
        },
{
    if domain.version != ENVELOPE_VERSION {
        return Err(SigningError::UnsupportedVersion);
    }
    Ok(())
}

/// The domain tag, "ChainVerse.Library" in ASCII.
pub open spec fn domain_tag() -> Seq<u8> {
    seq![67u8, 104, 97, 105, 110, 86, 101, 114, 115, 101, 46, 76, 105, 98, 114, 97, 114, 121]
}

/// The hash of the contract's address XDR.
pub open spec fn contract_hash(contract: Bytes32) -> Bytes32 {
    sha256_of(contract_address_xdr_of(contract))
}

/// The hash of the message type's symbol XDR.
pub open spec fn message_type_hash(t: MessageType) -> Bytes32 {
    sha256_of(symbol_xdr_of(message_type_name(t)))
}

/// The preimage laid out field by field.
pub open spec fn preimage_layout(
    version: u32,
    network_id: Bytes32,
    contract_hash: Bytes32,
    message_type_hash: Bytes32,
    body_hash: Bytes32,
) -> Seq<u8> {
    domain_tag() + be_u32(version) + network_id@ + contract_hash@ + message_type_hash@ + body_hash@
}

/// What [`canonical_preimage`] gives for `domain` and `body_hash`.
pub open spec fn preimage_result(domain: SigningDomain, body_hash: Bytes32) -> Result<
    Seq<u8>,
    SigningError,
> {
    if domain.version != ENVELOPE_VERSION {
        Err(SigningError::UnsupportedVersion)
    } else {
        Ok(
            preimage_layout(
                domain.version,
                domain.network_id,
                contract_hash(domain.contract),
                message_type_hash(domain.message_type),
                body_hash,
            ),
        )
    }
}

/// What [`signing_payload`] gives: the digest of the preimage.
pub open spec fn payload_result(domain: SigningDomain, body_hash: Bytes32) -> Result<
    Bytes32,
    SigningError,
> {
    match preimage_result(domain, body_hash) {
        Ok(p) => Ok(sha256_of(p)),
        Err(e) => Err(e),
    }
}

/// What [`assert_payload`] gives for a presented digest.
pub open spec fn assertion_result(
    domain: SigningDomain,
    body_hash: Bytes32,
    presented: Bytes32,
) -> Result<(), SigningError> {
    match payload_result(domain, body_hash) {
        Ok(p) => if p == presented {
            Ok(())
        } else {
            Err(SigningError::DomainMismatch)
        },
        Err(e) => Err(e),
    }
}

/// Builds the exact byte string that gets hashed. An unsupported version is
/// refused before anything is hashed.
pub fn canonical_preimage(env: &Env, domain: &SigningDomain, body_hash: &Bytes32) -> (r: Result<
    Vec<u8>,
    SigningError,
>)
    ensures
        match r {
            Ok(p) => preimage_result(*domain, *body_hash) == Ok::<Seq<u8>, SigningError>(p@),
            Err(e) => preimage_result(*domain, *body_hash) == Err::<Seq<u8>, SigningError>(e),
        },
{
    broadcast use vstd::array::group_array_axioms;

    match check_version(domain) {
        Err(e) => {
            return Err(e);
        },
        Ok(()) => {},
    }
    let contract_xdr = contract_address_xdr(env, &domain.contract);
    let contract_digest = sha256(env, &contract_xdr);
    let name = domain.message_type.tag();
    proof {
        lemma_message_type_names_are_symbols(domain.message_type);
    }
    let message_type_xdr = symbol_xdr(env, name);
    let message_type_digest = sha256(env, &message_type_xdr);

    let mut preimage: Vec<u8> = vec![
        67u8, 104, 97, 105, 110, 86, 101, 114, 115, 101, 46, 76, 105, 98, 114, 97, 114, 121,
    ];
    assert(preimage@ =~= domain_tag());
    push_be_u32(&mut preimage, domain.version);
    push_bytes(&mut preimage, domain.network_id.as_slice());
    push_bytes(&mut preimage, contract_digest.as_slice());
    push_bytes(&mut preimage, message_type_digest.as_slice());
    push_bytes(&mut preimage, body_hash.as_slice());
    Ok(preimage)
}

/// The 32-byte digest an off-chain signer signs.
pub fn signing_payload(env: &Env, domain: &SigningDomain, body_hash: &Bytes32) -> (r: Result<
    Bytes32,
    SigningError,
>)
    ensures
        r == payload_result(*domain, *body_hash),
{
    match canonical_preimage(env, domain, body_hash) {
        Ok(preimage) => Ok(sha256(env, &preimage)),
        Err(e) => Err(e),
    }
}

/// Confirms that `presented` is the payload this domain and body produce.
pub fn assert_payload(
    env: &Env,
    domain: &SigningDomain,
    body_hash: &Bytes32,
    presented: &Bytes32,
) -> (r: Result<(), SigningError>)
    ensures
        r == assertion_result(*domain, *body_hash, *presented),
{
    match signing_payload(env, domain, body_hash) {
        Ok(p) => {
            if !bytes32_eq(&p, presented) {
                return Err(SigningError::DomainMismatch);
            }
            Ok(())
        },
        Err(e) => Err(e),
    }
}

/// Every field of the preimage has a fixed width, so two preimages are
/// equal only when version, network id, contract hash, message-type hash and
/// body hash all are.
pub proof fn lemma_preimage_determines_its_fields(
    version_a: u32,
    network_a: Bytes32,
    contract_a: Bytes32,
    message_a: Bytes32,
    body_a: Bytes32,
    version_b: u32,
    network_b: Bytes32,
    contract_b: Bytes32,
    message_b: Bytes32,
    body_b: Bytes32,
)
    requires
        preimage_layout(version_a, network_a, contract_a, message_a, body_a) == preimage_layout(
            version_b,
            network_b,
            contract_b,
            message_b,
            body_b,
        ),
    ensures
        version_a == version_b,
        network_a == network_b,
        contract_a == contract_b,
        message_a == message_b,
        body_a == body_b,
{
    broadcast use vstd::array::group_array_axioms;

    let pa = preimage_layout(version_a, network_a, contract_a, message_a, body_a);
    let pb = preimage_layout(version_b, network_b, contract_b, message_b, body_b);
    assert(pa.subrange(18, 22) =~= be_u32(version_a));
    assert(pb.subrange(18, 22) =~= be_u32(version_b));
    assert(pa.subrange(22, 54) =~= network_a@);
    assert(pb.subrange(22, 54) =~= network_b@);
    assert(pa.subrange(54, 86) =~= contract_a@);
    assert(pb.subrange(54, 86) =~= contract_b@);
    assert(pa.subrange(86, 118) =~= message_a@);
    assert(pb.subrange(86, 118) =~= message_b@);
    assert(pa.subrange(118, 150) =~= body_a@);
    assert(pb.subrange(118, 150) =~= body_b@);
    lemma_be_u32_injective(version_a, version_b);
    assert(network_a =~= network_b);
    assert(contract_a =~= contract_b);
    assert(message_a =~= message_b);
    assert(body_a =~= body_b);
}

/// A built preimage is exactly [`PREIMAGE_LEN`] bytes long.
pub proof fn lemma_preimage_has_the_documented_length(domain: SigningDomain, body_hash: Bytes32)
    requires
        preimage_result(domain, body_hash) is Ok,
    ensures
        preimage_result(domain, body_hash)->Ok_0.len() == PREIMAGE_LEN,
{
}

/// Distinct message types have distinct names, so their hashed components
/// come from distinct symbols.
pub proof fn lemma_message_type_names_are_distinct(a: MessageType, b: MessageType)
    requires
        a != b,
    ensures
        message_type_name(a) != message_type_name(b),
{
    reveal_strlit("issuer_offer");
    reveal_strlit("membership_claim");
    reveal_strlit("fine_assessment");
    reveal_strlit("delegated_session");
    reveal_strlit("debt_settlement");
    reveal_strlit("payout_wallet_proof");
    if message_type_name(a).len() == message_type_name(b).len() {
        assert(message_type_name(a)[0] != message_type_name(b)[0]);
    }
}

/// The digest [`signing_payload`] derives always passes [`assert_payload`]
/// for the same domain and body, and nothing but that digest does.
pub proof fn lemma_assert_payload_accepts_exactly_the_derived_digest(
    domain: SigningDomain,
    body_hash: Bytes32,
    presented: Bytes32,
)
    requires
        domain.version == ENVELOPE_VERSION,
    ensures
        assertion_result(domain, body_hash, presented) is Ok <==> payload_result(
            domain,
            body_hash,
        ) == Ok::<Bytes32, SigningError>(presented),
{
}

} // verus!
