//! Signing a single-witness transaction: a placeholder witness fixes the
//! witness's size, the digest covers the transaction hash and that witness,
//! and the signature over the digest replaces the placeholder.
use crate::ledger::{with_witness, LedgerTransaction};
use ckb_types::prelude::{Builder, Entity, Pack};
use vstd::prelude::*;

verus! {

/// Size of a recoverable signature.
pub const SIGNATURE_SIZE: usize = 65;

/// The 32-byte blake2b digest of `data` under the ledger's personalization.
pub uninterp spec fn blake2b_256_of(data: Seq<u8>) -> Seq<u8>;

/// The recoverable signature that the secret key `key` makes of `digest`;
/// the scheme draws its nonce from the key and digest alone.
pub uninterp spec fn recoverable_signature_of(key: Seq<u8>, digest: Seq<u8>) -> Seq<u8>;

/// Order of the secp256k1 group.
pub open spec fn secp256k1_order() -> nat {
    0xFFFFFFFFFFFFFFFFFFFFFFFFFFFFFFFEBAAEDCE6AF48A03BBFD25E8CD0364141nat
}

/// The number that `s` writes, most significant byte first.
pub open spec fn be_value(s: Seq<u8>) -> nat
    decreases s.len(),
{
    if s.len() == 0 {
        0
    } else {
        be_value(s.drop_last()) * 256 + s.last() as nat
    }
}

/// Whether `key` is a secret key: a number from 1 to the group order less one.
pub open spec fn secret_key_in_range(key: Seq<u8>) -> bool {
    0 < be_value(key) < secp256k1_order()
}

/// The serialized witness whose lock field holds `lock` and whose other two
/// fields are absent: total size, the three field offsets, then the lock as
/// a length-prefixed byte string.
pub open spec fn witness_with_lock_of(lock: Seq<u8>) -> Seq<u8> {
    let n = lock.len();
    le_bytes(20 + n, 4) + le_bytes(16, 4) + le_bytes(20 + n, 4) + le_bytes(20 + n, 4) + le_bytes(n, 4)
        + lock
}

/// Relies on `ckb_hash::blake2b_256`: the digest of `data`.
#[verifier::external_body]
fn blake2b_256(data: &Vec<u8>) -> (r: [u8; 32])
    ensures
        r@ == blake2b_256_of(data@),
{
    ckb_hash::blake2b_256(data)
}

/// Relies on `packed::WitnessArgs`'s builder and `as_bytes`: the witness
/// with `lock` in its lock field, serialized.
#[verifier::external_body]
fn witness_with_lock(lock: &Vec<u8>) -> (r: Vec<u8>)
    requires
        lock@.len() + 20 <= u32::MAX,
    ensures
        r@ == witness_with_lock_of(lock@),
{
    let lock = Some(ckb_types::bytes::Bytes::from(lock.clone())).pack();
    ckb_types::packed::WitnessArgs::new_builder().lock(lock).build().as_bytes().to_vec()
}

/// Relies on `Privkey::sign_recoverable` and `Signature::serialize` of
/// `ckb_crypto`: the 65-byte recoverable signature of `digest`, or nothing
/// where `privkey` is not a secret key in range.
#[verifier::external_body]
fn sign_recoverable(privkey: &[u8; 32], digest: &[u8; 32]) -> (r: Option<Vec<u8>>)
    ensures
        r is Some <==> secret_key_in_range(privkey@),
        r matches Some(sig) ==> sig@.len() == SIGNATURE_SIZE && sig@ == recoverable_signature_of(
            privkey@,
            digest@,
        ),
{
    let key = ckb_crypto::secp::Privkey::from_slice(&privkey[..]);
    match key.sign_recoverable(&ckb_types::H256::from(*digest)) {
        Ok(sig) => Some(sig.serialize()),
        Err(_) => None,
    }
}

/// The `n` low bytes of `x`, least significant first.
pub open spec fn le_bytes(x: nat, n: nat) -> Seq<u8>
    decreases n,
{
    if n == 0 {
        seq![]
    } else {
        seq![(x % 256) as u8] + le_bytes(x / 256, (n - 1) as nat)
    }
}

/// The bytes hashed into the signing digest: the transaction hash, the
/// witness's length as 8 little-endian bytes, then the witness.
pub open spec fn signing_message(tx_hash: Seq<u8>, witness: Seq<u8>) -> Seq<u8> {
    tx_hash + le_bytes(witness.len(), 8) + witness
}

/// A lock field of zeros, as long as a signature.
pub open spec fn zero_signature() -> Seq<u8> {
    Seq::new(SIGNATURE_SIZE as nat, |i: int| 0u8)
}

/// The digest signed for the transaction whose hash is `tx_hash`.
pub open spec fn signing_digest_of(tx_hash: Seq<u8>) -> Seq<u8> {
    blake2b_256_of(signing_message(tx_hash, witness_with_lock_of(zero_signature())))
}

#[derive(Clone, Copy, Debug, PartialEq, Eq, Structural)]
pub enum SignError {
    /// The private key could not sign the digest.
    InvalidKey,
}

/// `x` as 8 little-endian bytes.
pub fn u64_to_le_bytes(x: u64) -> (r: Vec<u8>)
    ensures
        r@ == le_bytes(x as nat, 8),
{
    let mut out: Vec<u8> = Vec::new();
    let mut v: u64 = x;
    let mut i: usize = 0;
    while i < 8
        invariant
            i <= 8,
            out@ + le_bytes(v as nat, (8 - i) as nat) == le_bytes(x as nat, 8),
        decreases 8 - i,
    {
        let ghost before = out@;
        let byte = (v % 256) as u8;
        out.push(byte);
        proof {
            let rest = le_bytes((v / 256) as nat, (8 - i - 1) as nat);
            assert(le_bytes(v as nat, (8 - i) as nat) == seq![byte] + rest);
            assert(before + (seq![byte] + rest) =~= out@ + rest);
        }
        v = v / 256;
        i = i + 1;
    }
    assert(le_bytes(v as nat, 0) =~= Seq::<u8>::empty());
    assert(out@ + Seq::<u8>::empty() =~= out@);
    out
}

/// The signing message for a transaction hash and a serialized witness.
pub fn signing_message_for(tx_hash: &[u8; 32], witness: &Vec<u8>) -> (r: Vec<u8>)
    ensures
        r@ == signing_message(tx_hash@, witness@),
{
    let mut message: Vec<u8> = Vec::new();
    let mut i: usize = 0;
    while i < 32
        invariant
            i <= 32,
            message@ == tx_hash@.take(i as int),
        decreases 32 - i,
    {
        message.push(tx_hash[i]);
        assert(message@ =~= tx_hash@.take(i + 1));
        i = i + 1;
    }
    assert(tx_hash@.take(32) =~= tx_hash@);
    let mut len = u64_to_le_bytes(witness.len() as u64);
    message.append(&mut len);
    let mut j: usize = 0;
    let ghost head = message@;
    while j < witness.len()
        invariant
            j <= witness.len(),
            message@ == head + witness@.take(j as int),
        decreases witness.len() - j,
    {
        message.push(witness[j]);
        assert(message@ =~= head + witness@.take(j + 1));
        j = j + 1;
    }
    assert(witness@.take(witness.len() as int) =~= witness@);
    message
}

/// The digest to sign for the transaction whose hash is `tx_hash`.
pub fn signing_digest(tx_hash: &[u8; 32]) -> (r: [u8; 32])
    ensures
        r@ == signing_digest_of(tx_hash@),
{
    let zeros: Vec<u8> = vec![0u8; SIGNATURE_SIZE];
    assert(zeros@ =~= zero_signature());
    let placeholder = witness_with_lock(&zeros);
    let message = signing_message_for(tx_hash, &placeholder);
    blake2b_256(&message)
}

/// The witness that signs the transaction whose hash is `tx_hash` with `key`.
pub open spec fn signed_witness_of(key: Seq<u8>, tx_hash: Seq<u8>) -> Seq<u8> {
    witness_with_lock_of(recoverable_signature_of(key, signing_digest_of(tx_hash)))
}

/// Signing depends on the key and the transaction hash alone: signing one
/// transaction twice, or two transactions that differ only in their
/// witnesses, hashes the same message and yields the same witness. The
/// placeholder and a real signature make witnesses of one size, 85 bytes.
pub proof fn lemma_signing_deterministic(key: Seq<u8>, h1: Seq<u8>, h2: Seq<u8>, sig: Seq<u8>)
    requires
        h1 == h2,
        sig.len() == SIGNATURE_SIZE,
    ensures
        signing_digest_of(h1) == signing_digest_of(h2),
        signed_witness_of(key, h1) == signed_witness_of(key, h2),
        witness_with_lock_of(zero_signature()).len() == 85,
        witness_with_lock_of(sig).len() == 85,
{
    reveal_with_fuel(le_bytes, 5);
}

/// The witness that authorizes the transaction whose hash is `tx_hash`:
/// the signature of its signing digest, in the lock field.
pub fn signed_witness(tx_hash: &[u8; 32], privkey: &[u8; 32]) -> (r: Result<Vec<u8>, SignError>)
    ensures
        r is Ok <==> secret_key_in_range(privkey@),
        r matches Ok(w) ==> w@ == signed_witness_of(privkey@, tx_hash@),
        r matches Err(e) ==> e == SignError::InvalidKey,
{
    let digest = signing_digest(tx_hash);
    match sign_recoverable(privkey, &digest) {
        Some(sig) => Ok(witness_with_lock(&sig)),
        None => Err(SignError::InvalidKey),
    }
}

/// Signs `tx` with `privkey`: the result keeps the transaction's hash and
/// has the signed witness as its only witness.
pub fn sign_transaction(tx: &LedgerTransaction, privkey: &[u8; 32]) -> (r: Result<LedgerTransaction, SignError>)
    ensures
        r is Ok <==> secret_key_in_range(privkey@),
        r matches Ok(s) ==> s.spec_hash() == tx.spec_hash() && s.spec_witnesses() == seq![
            signed_witness_of(privkey@, tx.spec_hash()),
        ],
        r matches Err(e) ==> e == SignError::InvalidKey,
{
    let tx_hash = tx.hash();
    match signed_witness(&tx_hash, privkey) {
        Ok(witness) => Ok(with_witness(tx, &witness)),
        Err(e) => Err(e),
    }
}

} // verus!
