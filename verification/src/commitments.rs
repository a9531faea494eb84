//! Salted, domain-separated commitments for low-entropy identifiers.
//!
//! An ISBN, a barcode or a student number can be enumerated in seconds, so
//! its bare digest is as good as the plaintext. What the library stores
//! instead is
//!
//! ```text
//! commitment = sha256(
//!       tag                     // 24 bytes, "ChainVerse.Library.Ident"
//!    || kind                    // 4 bytes, big-endian
//!    || salt_version            // 4 bytes, big-endian
//!    || institution_salt        // 32 bytes, secret, per institution
//!    || sha256(identifier)      // 32 bytes
//! )
//! ```
//!
//! Every field has a fixed width, so the preimage determines each field
//! (see [`lemma_preimage_determines_its_fields`]). [`reject_raw_identifier`]
//! is the screen that stops a printed identifier reaching storage.
use vstd::prelude::*;
use soroban_sdk::Env;
use crate::crypto::{be_u32, lemma_be_u32_injective, push_be_u32, push_bytes, sha256, sha256_of};
use crate::table::Bytes32;

verus! {

/// Required institution salt width, in bytes.
pub const SALT_LEN: u32 = 32;

/// Length of a commitment preimage, in bytes.
pub const PREIMAGE_LEN: u32 = 96;

/// Values shorter than this are always treated as low-entropy.
pub const MIN_OPAQUE_LEN: u32 = 16;

/// Failures when committing or screening an identifier.
#[derive(Copy, Clone, Debug, PartialEq, Eq, Structural)]
pub enum CommitmentError {
    /// The institution salt is not [`SALT_LEN`] bytes.
    InvalidSalt,
    /// The salt is all zero bytes: an unset or placeholder value.
    UnseededSalt,
    /// A raw, enumerable identifier was submitted where a commitment is
    /// required.
    RawIdentifierRejected,
    /// The identifier was empty.
    EmptyIdentifier,
    /// Salt version zero is reserved for "unset".
    InvalidSaltVersion,
}

impl CommitmentError {
    /// The stable numeric code a client sees.
    pub fn code(self) -> (c: u32)
        ensures
            c == match self {
                CommitmentError::InvalidSalt => 260u32,
                CommitmentError::UnseededSalt => 261u32,
                CommitmentError::RawIdentifierRejected => 262u32,
                CommitmentError::EmptyIdentifier => 263u32,
                CommitmentError::InvalidSaltVersion => 264u32,
            },
    {
        match self {
            CommitmentError::InvalidSalt => 260,
            CommitmentError::UnseededSalt => 261,
            CommitmentError::RawIdentifierRejected => 262,
            CommitmentError::EmptyIdentifier => 263,
            CommitmentError::InvalidSaltVersion => 264,
        }
    }
}

/// Which identifier space a value belongs to.
#[derive(Copy, Clone, Debug, PartialEq, Eq, Structural)]
pub enum IdentifierKind {
    /// ISBN-10 or ISBN-13.
    Isbn,
    /// A physical-item barcode, typically sequential.
    Barcode,
    /// An institution-issued patron number.
    StudentId,
    /// A patron's pseudonymous library identifier.
    PatronId,
    /// A hash of an off-ledger document.
    DocumentHash,
    /// A reading-list or collection reference.
    ReadingList,
}

/// The stable numeric tag of `kind` in the preimage.
pub open spec fn kind_tag(kind: IdentifierKind) -> u32 {
    match kind {
        IdentifierKind::Isbn => 1,
        IdentifierKind::Barcode => 2,
        IdentifierKind::StudentId => 3,
        IdentifierKind::PatronId => 4,
        IdentifierKind::DocumentHash => 5,
        IdentifierKind::ReadingList => 6,
    }
}

impl IdentifierKind {
    /// Stable numeric tag used in the preimage, spelled out so that
    /// reordering the variants cannot change any commitment.
    pub fn tag(self) -> (t: u32)
        ensures
            t == kind_tag(self),
    {
        match self {
            IdentifierKind::Isbn => 1,
            IdentifierKind::Barcode => 2,
            IdentifierKind::StudentId => 3,
            IdentifierKind::PatronId => 4,
            IdentifierKind::DocumentHash => 5,
            IdentifierKind::ReadingList => 6,
        }
    }
}

/// The verdict on an institution salt: exactly 32 bytes, not all zero.
pub open spec fn salt_check(salt: Seq<u8>) -> Result<(), CommitmentError> {
    if salt.len() != SALT_LEN {
        Err(CommitmentError::InvalidSalt)
    } else if forall|i: int| 0 <= i < salt.len() ==> salt[i] == 0 {
        Err(CommitmentError::UnseededSalt)
    } else {
        Ok(())
    }
}

/// Validates an institution salt. The all-zero salt, which is what an unset
/// slot reads as, is refused explicitly.
pub fn validate_salt(salt: &Vec<u8>) -> (r: Result<(), CommitmentError>)
    ensures
        r == salt_check(salt@),
{
    if salt.len() != 32 {
        return Err(CommitmentError::InvalidSalt);
    }
    let mut i: usize = 0;
    while i < salt.len()
        invariant
            0 <= i <= salt@.len(),
            salt@.len() == SALT_LEN,
            forall|j: int| 0 <= j < i ==> salt@[j] == 0,
        decreases salt@.len() - i,
    {
        if salt[i] != 0 {
            assert(salt@[i as int] != 0);
            return Ok(());
        }
        i = i + 1;
    }
    Err(CommitmentError::UnseededSalt)
}

/// An ASCII digit.
pub open spec fn is_ascii_digit(b: u8) -> bool {
    48 <= b <= 57
}

/// A separator tolerated inside a printed identifier: `-` or a space.
pub open spec fn is_separator(b: u8) -> bool {
    b == 45 || b == 32
}

/// Digits and separators only, with at least one digit: the shape of a
/// printed ISBN, barcode or student number.
pub open spec fn is_printed_identifier(s: Seq<u8>) -> bool {
    &&& forall|i: int| 0 <= i < s.len() ==> is_ascii_digit(s[i]) || is_separator(s[i])
    &&& exists|i: int| 0 <= i < s.len() && is_ascii_digit(s[i])
}

/// The verdict of the raw-identifier screen on `s`.
pub open spec fn screen(s: Seq<u8>) -> Result<(), CommitmentError> {
    if s.len() == 0 {
        Err(CommitmentError::EmptyIdentifier)
    } else if s.len() < MIN_OPAQUE_LEN {
        Err(CommitmentError::RawIdentifierRejected)
    } else if is_printed_identifier(s) {
        Err(CommitmentError::RawIdentifierRejected)
    } else {
        Ok(())
    }
}

/// Screens a value about to be stored or emitted: refuses the empty value,
/// anything shorter than [`MIN_OPAQUE_LEN`] bytes, and anything made of
/// digits and separators alone.
pub fn reject_raw_identifier(value: &Vec<u8>) -> (r: Result<(), CommitmentError>)
    ensures
        r == screen(value@),
{
    if value.len() == 0 {
        return Err(CommitmentError::EmptyIdentifier);
    }
    if value.len() < 16 {
        return Err(CommitmentError::RawIdentifierRejected);
    }
    let mut saw_digit = false;
    let mut saw_other = false;
    let mut i: usize = 0;
    while i < value.len()
        invariant
            0 <= i <= value@.len(),
            saw_digit == exists|j: int| 0 <= j < i && is_ascii_digit(value@[j]),
            !saw_other == forall|j: int|
                0 <= j < i ==> is_ascii_digit(value@[j]) || is_separator(value@[j]),
        decreases value@.len() - i,
    {
        let b = value[i];
        if 48 <= b && b <= 57 {
            saw_digit = true;
        } else if b != 45 && b != 32 {
            saw_other = true;
        }
        proof {
            if saw_digit {
                if is_ascii_digit(b) {
                    assert(is_ascii_digit(value@[i as int]));
                }
            } else {
                assert forall|j: int| 0 <= j < i + 1 implies !is_ascii_digit(value@[j]) by {
                    if j < i {
                        assert(!(0 <= j < i && is_ascii_digit(value@[j])));
                    }
                }
            }
            if saw_other && !is_ascii_digit(b) && !is_separator(b) {
                assert(!(is_ascii_digit(value@[i as int]) || is_separator(value@[i as int])));
            }
        }
        i = i + 1;
    }
    if !saw_other && saw_digit {
        return Err(CommitmentError::RawIdentifierRejected);
    }
    Ok(())
}

/// The constant domain tag, "ChainVerse.Library.Ident" in ASCII.
pub open spec fn commitment_tag() -> Seq<u8> {
    seq![
        67u8, 104, 97, 105, 110, 86, 101, 114, 115, 101, 46,
        76, 105, 98, 114, 97, 114, 121, 46,
        73, 100, 101, 110, 116,
    ]
}

/// The preimage laid out field by field.
pub open spec fn preimage_layout(
    kind: IdentifierKind,
    salt_version: u32,
    salt: Seq<u8>,
    identifier_hash: Bytes32,
) -> Seq<u8> {
    commitment_tag() + be_u32(kind_tag(kind)) + be_u32(salt_version) + salt + identifier_hash@
}

/// What [`commitment_preimage`] gives: the first failing check in the order
/// salt version, salt, identifier, else the laid-out preimage.
pub open spec fn preimage_result(
    kind: IdentifierKind,
    salt_version: u32,
    salt: Seq<u8>,
    identifier: Seq<u8>,
) -> Result<Seq<u8>, CommitmentError> {
    if salt_version == 0 {
        Err(CommitmentError::InvalidSaltVersion)
    } else if salt_check(salt) is Err {
        Err(salt_check(salt)->Err_0)
    } else if identifier.len() == 0 {
        Err(CommitmentError::EmptyIdentifier)
    } else {
        Ok(preimage_layout(kind, salt_version, salt, sha256_of(identifier)))
    }
}

/// What [`commit`] gives: the digest of the preimage.
pub open spec fn commitment_result(
    kind: IdentifierKind,
    salt_version: u32,
    salt: Seq<u8>,
    identifier: Seq<u8>,
) -> Result<Bytes32, CommitmentError> {
    match preimage_result(kind, salt_version, salt, identifier) {
        Ok(p) => Ok(sha256_of(p)),
        Err(e) => Err(e),
    }
}

/// Builds the exact bytes that get hashed into a commitment.
pub fn commitment_preimage(
    env: &Env,
    kind: IdentifierKind,
    salt_version: u32,
    institution_salt: &Vec<u8>,
    identifier: &Vec<u8>,
) -> (r: Result<Vec<u8>, CommitmentError>)
    ensures
        match r {
            Ok(p) => preimage_result(kind, salt_version, institution_salt@, identifier@) == Ok::<
                Seq<u8>,
                CommitmentError,
            >(p@),
            Err(e) => preimage_result(kind, salt_version, institution_salt@, identifier@) == Err::<
                Seq<u8>,
                CommitmentError,
            >(e),
        },
{
    broadcast use vstd::array::group_array_axioms;

    if salt_version == 0 {
        return Err(CommitmentError::InvalidSaltVersion);
    }
    match validate_salt(institution_salt) {
        Err(e) => {
            return Err(e);
        },
        Ok(()) => {},
    }
    if identifier.len() == 0 {
        return Err(CommitmentError::EmptyIdentifier);
    }
    let identifier_hash = sha256(env, identifier);
    let mut preimage: Vec<u8> = vec![
        67u8, 104, 97, 105, 110, 86, 101, 114, 115, 101, 46,
        76, 105, 98, 114, 97, 114, 121, 46,
        73, 100, 101, 110, 116,
    ];
    assert(preimage@ =~= commitment_tag());
    push_be_u32(&mut preimage, kind.tag());
    push_be_u32(&mut preimage, salt_version);
    push_bytes(&mut preimage, institution_salt.as_slice());
    push_bytes(&mut preimage, identifier_hash.as_slice());
    Ok(preimage)
}

/// The commitment an institution stores in place of a raw identifier.
pub fn commit(
    env: &Env,
    kind: IdentifierKind,
    salt_version: u32,
    institution_salt: &Vec<u8>,
    identifier: &Vec<u8>,
) -> (r: Result<Bytes32, CommitmentError>)
    ensures
        r == commitment_result(kind, salt_version, institution_salt@, identifier@),
{
    match commitment_preimage(env, kind, salt_version, institution_salt, identifier) {
        Ok(preimage) => Ok(sha256(env, &preimage)),
        Err(e) => Err(e),
    }
}

/// What [`verify`] gives: whether `presented` is the commitment.
pub open spec fn verification_result(
    kind: IdentifierKind,
    salt_version: u32,
    salt: Seq<u8>,
    identifier: Seq<u8>,
    presented: Bytes32,
) -> Result<bool, CommitmentError> {
    match commitment_result(kind, salt_version, salt, identifier) {
        Ok(c) => Ok(c == presented),
        Err(e) => Err(e),
    }
}

/// Confirms that `presented` is the commitment this identifier produces
/// under the institution's salt.
pub fn verify(
    env: &Env,
    kind: IdentifierKind,
    salt_version: u32,
    institution_salt: &Vec<u8>,
    identifier: &Vec<u8>,
    presented: &Bytes32,
) -> (r: Result<bool, CommitmentError>)
    ensures
        r == verification_result(kind, salt_version, institution_salt@, identifier@, *presented),
{
    match commit(env, kind, salt_version, institution_salt, identifier) {
        Ok(c) => Ok(crate::table::bytes32_eq(&c, presented)),
        Err(e) => Err(e),
    }
}

/// Every field of the preimage has a fixed width, so two preimages are equal
/// only when kind, salt version, salt and identifier digest all are: the
/// same digits in two identifier spaces, under two salt versions or under
/// two salts never share a preimage.
pub proof fn lemma_preimage_determines_its_fields(
    kind_a: IdentifierKind,
    version_a: u32,
    salt_a: Seq<u8>,
    hash_a: Bytes32,
    kind_b: IdentifierKind,
    version_b: u32,
    salt_b: Seq<u8>,
    hash_b: Bytes32,
)
    requires
        salt_a.len() == SALT_LEN,
        salt_b.len() == SALT_LEN,
        preimage_layout(kind_a, version_a, salt_a, hash_a) == preimage_layout(
            kind_b,
            version_b,
            salt_b,
            hash_b,
        ),
    ensures
        kind_a == kind_b,
        version_a == version_b,
        salt_a == salt_b,
        hash_a == hash_b,
{
    broadcast use vstd::array::group_array_axioms;

    let pa = preimage_layout(kind_a, version_a, salt_a, hash_a);
    let pb = preimage_layout(kind_b, version_b, salt_b, hash_b);
    assert(pa.subrange(24, 28) =~= be_u32(kind_tag(kind_a)));
    assert(pb.subrange(24, 28) =~= be_u32(kind_tag(kind_b)));
    assert(pa.subrange(28, 32) =~= be_u32(version_a));
    assert(pb.subrange(28, 32) =~= be_u32(version_b));
    assert(pa.subrange(32, 64) =~= salt_a);
    assert(pb.subrange(32, 64) =~= salt_b);
    assert(pa.subrange(64, 96) =~= hash_a@);
    assert(pb.subrange(64, 96) =~= hash_b@);
    lemma_be_u32_injective(kind_tag(kind_a), kind_tag(kind_b));
    lemma_be_u32_injective(version_a, version_b);
    assert(hash_a@ == hash_b@);
    assert(hash_a =~= hash_b);
}

/// A preimage, when one is built, is exactly [`PREIMAGE_LEN`] bytes long.
pub proof fn lemma_preimage_has_the_documented_length(
    kind: IdentifierKind,
    salt_version: u32,
    salt: Seq<u8>,
    identifier: Seq<u8>,
)
    requires
        preimage_result(kind, salt_version, salt, identifier) is Ok,
    ensures
        preimage_result(kind, salt_version, salt, identifier)->Ok_0.len() == PREIMAGE_LEN,
{
}

/// A commitment verifies against the inputs it was made from.
pub proof fn lemma_verify_accepts_its_own_commitment(
    kind: IdentifierKind,
    salt_version: u32,
    salt: Seq<u8>,
    identifier: Seq<u8>,
)
    requires
        commitment_result(kind, salt_version, salt, identifier) is Ok,
    ensures
        verification_result(
            kind,
            salt_version,
            salt,
            identifier,
            commitment_result(kind, salt_version, salt, identifier)->Ok_0,
        ) == Ok::<bool, CommitmentError>(true),
{
}

} // verus!
