//! Hashing through the ledger host, and the byte encodings hashed.
//!
//! The host environment is an opaque handle that only the contract runtime
//! (or a test harness) can create; the library passes it through to the
//! one call that needs it. SHA-256 is named, not restated: `sha256_of` is a
//! function of the bytes hashed alone.
use vstd::prelude::*;
use soroban_sdk::xdr::{ContractId, ScAddress, ToXdr};
use soroban_sdk::{Env, TryFromVal};
use crate::table::Bytes32;

verus! {

/// The ledger host handle.
#[verifier::external_type_specification]
#[verifier::external_body]
pub struct ExEnv(soroban_sdk::Env);

/// The SHA-256 digest of `data`.
pub uninterp spec fn sha256_of(data: Seq<u8>) -> Bytes32;

/// Calls `soroban_sdk::crypto::Crypto::sha256` on a copy of `data` and
/// returns the digest's bytes. The contract claims only that the digest is
/// `sha256_of(data)`: the same bytes always give the same digest. The host
/// meters the call; a budget the host refuses aborts the invocation.
#[verifier::external_body]
pub(crate) fn sha256(env: &Env, data: &Vec<u8>) -> (h: Bytes32)
    ensures
        h == sha256_of(data@),
{
    let bytes = soroban_sdk::Bytes::from_slice(env, data.as_slice());
    env.crypto().sha256(&bytes).to_array()
}

/// The XDR encoding of the contract address whose contract id is
/// `contract_id`: the `ScVal` discriminant of `Address` (18), the
/// `ScAddressType` discriminant of `Contract` (1), each a big-endian
/// 32-bit word, then the 32 id bytes.
pub open spec fn contract_address_xdr_of(contract_id: Bytes32) -> Seq<u8> {
    be_u32(18) + be_u32(1) + contract_id@
}

/// Builds the `soroban_sdk::Address` of the contract with id `contract_id`
/// and serialises it with `soroban_sdk::xdr::ToXdr::to_xdr`, which writes
/// the address's `ScVal` in XDR. Converting a contract id into an address
/// does not fail: the host accepts every 32-byte contract id.
#[verifier::external_body]
pub(crate) fn contract_address_xdr(env: &Env, contract_id: &Bytes32) -> (x: Vec<u8>)
    ensures
        x@ == contract_address_xdr_of(*contract_id),
{
    let sc = ScAddress::Contract(ContractId(soroban_sdk::xdr::Hash(*contract_id)));
    let address = soroban_sdk::Address::try_from_val(env, &sc).unwrap();
    let bytes = address.to_xdr(env);
    let mut out: Vec<u8> = vec![0u8; bytes.len() as usize];
    bytes.copy_into_slice(&mut out);
    out
}

/// A name that `soroban_sdk::Symbol` can hold: at most 32 characters, each
/// one of `a-z`, `A-Z`, `0-9` and `_`.
pub open spec fn is_symbol_name(name: Seq<char>) -> bool {
    &&& name.len() <= 32
    &&& forall|i: int|
        0 <= i < name.len() ==> ('a' <= name[i] <= 'z' || 'A' <= name[i] <= 'Z' || '0' <= name[i]
            <= '9' || name[i] == '_')
}

/// The ASCII bytes of a symbol name.
pub open spec fn ascii_bytes(name: Seq<char>) -> Seq<u8> {
    Seq::new(name.len(), |i: int| name[i] as u8)
}

/// The XDR encoding of the symbol named `name`: the `ScVal` discriminant
/// of `Symbol` (15) and the name's length, each a big-endian 32-bit word,
/// then the name's bytes, zero-padded to a multiple of four.
pub open spec fn symbol_xdr_of(name: Seq<char>) -> Seq<u8> {
    be_u32(15) + be_u32(name.len() as u32) + ascii_bytes(name) + Seq::new(
        ((4 - name.len() % 4) % 4) as nat,
        |i: int| 0u8,
    )
}

/// Builds `soroban_sdk::Symbol::new(env, name)` and serialises it with
/// `soroban_sdk::xdr::ToXdr::to_xdr`, which writes the symbol's `ScVal` in
/// XDR. `Symbol::new` panics on a name it cannot hold, which `requires`
/// rules out.
#[verifier::external_body]
pub(crate) fn symbol_xdr(env: &Env, name: &str) -> (x: Vec<u8>)
    requires
        is_symbol_name(name@),
    ensures
        x@ == symbol_xdr_of(name@),
{
    let bytes = soroban_sdk::Symbol::new(env, name).to_xdr(env);
    let mut out: Vec<u8> = vec![0u8; bytes.len() as usize];
    bytes.copy_into_slice(&mut out);
    out
}

/// The big-endian encoding of `n`.
pub open spec fn be_u64(n: u64) -> Seq<u8> {
    seq![
        (n >> 56u64) as u8,
        (n >> 48u64) as u8,
        (n >> 40u64) as u8,
        (n >> 32u64) as u8,
        (n >> 24u64) as u8,
        (n >> 16u64) as u8,
        (n >> 8u64) as u8,
        n as u8,
    ]
}

/// The big-endian encoding is one-to-one.
pub proof fn lemma_be_u64_injective(a: u64, b: u64)
    requires
        be_u64(a) == be_u64(b),
    ensures
        a == b,
{
    assert(be_u64(a)[0] == be_u64(b)[0]);
    assert(be_u64(a)[1] == be_u64(b)[1]);
    assert(be_u64(a)[2] == be_u64(b)[2]);
    assert(be_u64(a)[3] == be_u64(b)[3]);
    assert(be_u64(a)[4] == be_u64(b)[4]);
    assert(be_u64(a)[5] == be_u64(b)[5]);
    assert(be_u64(a)[6] == be_u64(b)[6]);
    assert(be_u64(a)[7] == be_u64(b)[7]);
    assert((a >> 56u64) as u8 == (b >> 56u64) as u8 && (a >> 48u64) as u8 == (b >> 48u64) as u8
        && (a >> 40u64) as u8 == (b >> 40u64) as u8 && (a >> 32u64) as u8 == (b >> 32u64) as u8
        && (a >> 24u64) as u8 == (b >> 24u64) as u8 && (a >> 16u64) as u8 == (b >> 16u64) as u8
        && (a >> 8u64) as u8 == (b >> 8u64) as u8 && a as u8 == b as u8 ==> a == b) by (bit_vector);
}

/// Appends the big-endian encoding of `n`.
pub fn push_be_u64(out: &mut Vec<u8>, n: u64)
    ensures
        final(out)@ == old(out)@ + be_u64(n),
{
    out.push((n >> 56u64) as u8);
    out.push((n >> 48u64) as u8);
    out.push((n >> 40u64) as u8);
    out.push((n >> 32u64) as u8);
    out.push((n >> 24u64) as u8);
    out.push((n >> 16u64) as u8);
    out.push((n >> 8u64) as u8);
    out.push(n as u8);
    proof {
        assert(out@ =~= old(out)@ + be_u64(n));
    }
}

/// The big-endian encoding of `n`.
pub open spec fn be_u32(n: u32) -> Seq<u8> {
    seq![(n >> 24u32) as u8, (n >> 16u32) as u8, (n >> 8u32) as u8, n as u8]
}

/// The big-endian encoding is one-to-one.
pub proof fn lemma_be_u32_injective(a: u32, b: u32)
    requires
        be_u32(a) == be_u32(b),
    ensures
        a == b,
{
    assert(be_u32(a)[0] == be_u32(b)[0]);
    assert(be_u32(a)[1] == be_u32(b)[1]);
    assert(be_u32(a)[2] == be_u32(b)[2]);
    assert(be_u32(a)[3] == be_u32(b)[3]);
    assert((a >> 24u32) as u8 == (b >> 24u32) as u8 && (a >> 16u32) as u8 == (b >> 16u32) as u8
        && (a >> 8u32) as u8 == (b >> 8u32) as u8 && a as u8 == b as u8 ==> a == b) by (bit_vector);
}

/// Appends the big-endian encoding of `n`.
pub fn push_be_u32(out: &mut Vec<u8>, n: u32)
    ensures
        final(out)@ == old(out)@ + be_u32(n),
{
    out.push((n >> 24u32) as u8);
    out.push((n >> 16u32) as u8);
    out.push((n >> 8u32) as u8);
    out.push(n as u8);
    proof {
        assert(out@ =~= old(out)@ + be_u32(n));
    }
}

/// Appends every byte of `bytes`, in order.
pub fn push_bytes(out: &mut Vec<u8>, bytes: &[u8])
    ensures
        final(out)@ == old(out)@ + bytes@,
{
    let mut i: usize = 0;
    while i < bytes.len()
        invariant
            0 <= i <= bytes@.len(),
            out@ == old(out)@ + bytes@.subrange(0, i as int),
        decreases bytes@.len() - i,
    {
        out.push(bytes[i]);
        i = i + 1;
        proof {
            assert(bytes@.subrange(0, i as int) =~= bytes@.subrange(0, i - 1) + seq![bytes@[i - 1]]);
            assert(out@ =~= old(out)@ + bytes@.subrange(0, i as int));
        }
    }
    proof {
        assert(bytes@.subrange(0, i as int) =~= bytes@);
    }
}

/// The record id minted from a counter value and a timestamp.
pub open spec fn counter_id(counter: u64, timestamp: u64) -> Bytes32 {
    sha256_of(be_u64(counter) + be_u64(timestamp))
}

/// Mints the record id for `counter` at `timestamp`.
pub fn derive_counter_id(env: &Env, counter: u64, timestamp: u64) -> (id: Bytes32)
    ensures
        id == counter_id(counter, timestamp),
{
    let mut input: Vec<u8> = Vec::new();
    push_be_u64(&mut input, counter);
    push_be_u64(&mut input, timestamp);
    proof {
        assert(input@ =~= be_u64(counter) + be_u64(timestamp));
    }
    sha256(env, &input)
}

/// The counter after one more id is minted: it wraps to one, never zero.
pub open spec fn next_counter(c: u64) -> u64 {
    if c == u64::MAX {
        1
    } else {
        (c + 1) as u64
    }
}

} // verus!
