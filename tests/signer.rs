use tps_bench::ledger::{build_transaction, min_capacity, LedgerTransaction, LockScript};
use tps_bench::packer::{explode, CellDep, DepType, LiveCell, OutPoint};
use tps_bench::signer::{
    sign_transaction, signed_witness, signing_digest, signing_message_for, u64_to_le_bytes,
    SignError,
};

fn lock(byte: u8) -> LockScript {
    LockScript { code_hash: [byte; 32], hash_type: 1, args: vec![byte; 20] }
}

fn sample_tx() -> LedgerTransaction {
    let cells = vec![LiveCell { out_point: OutPoint { tx_hash: [4u8; 32], index: 1 }, capacity: 1000 }];
    let dep = CellDep { out_point: OutPoint { tx_hash: [5u8; 32], index: 0 }, dep_type: DepType::DepGroup };
    let txs = explode(&cells, 300, 2, 0, 0, dep).unwrap();
    build_transaction(&txs[0], &lock(1), &lock(2))
}

#[test]
fn le_bytes_of_u64() {
    assert_eq!(u64_to_le_bytes(85), vec![85, 0, 0, 0, 0, 0, 0, 0]);
    assert_eq!(u64_to_le_bytes(0x0102030405060708), vec![8, 7, 6, 5, 4, 3, 2, 1]);
}

#[test]
fn message_layout() {
    let h = [9u8; 32];
    let m = signing_message_for(&h, &vec![1, 2, 3]);
    let mut want = vec![9u8; 32];
    want.extend_from_slice(&[3, 0, 0, 0, 0, 0, 0, 0, 1, 2, 3]);
    assert_eq!(m, want);
}

#[test]
fn digest_is_deterministic() {
    let tx = sample_tx();
    let h1 = tx.hash();
    let h2 = sample_tx().hash();
    assert_eq!(h1, h2);
    assert_eq!(signing_digest(&h1), signing_digest(&h2));
    assert_ne!(signing_digest(&h1), h1);
    assert_ne!(signing_digest(&[0u8; 32]), signing_digest(&[1u8; 32]));
}

#[test]
fn signed_witness_holds_signature() {
    let w = signed_witness(&[3u8; 32], &[1u8; 32]).unwrap();
    // A witness with a 65-byte lock and no other fields: header, offsets,
    // length prefix and the signature.
    assert_eq!(w.len(), 16 + 4 + 65);
    assert_eq!(&w[..20], &[85, 0, 0, 0, 16, 0, 0, 0, 85, 0, 0, 0, 85, 0, 0, 0, 65, 0, 0, 0]);
    assert_eq!(signed_witness(&[3u8; 32], &[1u8; 32]).unwrap(), w);
    assert_ne!(signed_witness(&[4u8; 32], &[1u8; 32]).unwrap(), w);
    let order_minus_one: [u8; 32] = [
        0xFF, 0xFF, 0xFF, 0xFF, 0xFF, 0xFF, 0xFF, 0xFF, 0xFF, 0xFF, 0xFF, 0xFF, 0xFF, 0xFF, 0xFF, 0xFE,
        0xBA, 0xAE, 0xDC, 0xE6, 0xAF, 0x48, 0xA0, 0x3B, 0xBF, 0xD2, 0x5E, 0x8C, 0xD0, 0x36, 0x41, 0x40,
    ];
    assert!(signed_witness(&[3u8; 32], &order_minus_one).is_ok());
    let mut order = order_minus_one;
    order[31] = 0x41;
    assert_eq!(signed_witness(&[3u8; 32], &order), Err(SignError::InvalidKey));
    assert_eq!(signed_witness(&[3u8; 32], &[0u8; 32]), Err(SignError::InvalidKey));
}

#[test]
fn sign_transaction_sets_one_witness() {
    let tx = sample_tx();
    assert_eq!(tx.view().inputs().len(), 1);
    assert_eq!(tx.view().outputs().len(), 3);
    assert_eq!(tx.witness_count(), 0);
    let signed = sign_transaction(&tx, &[1u8; 32]).unwrap();
    assert_eq!(signed.witness_count(), 1);
    assert_eq!(signed.view().witnesses().len(), 1);
    assert_eq!(signed.hash(), tx.hash());
    let witness = signed_witness(&tx.hash(), &[1u8; 32]).unwrap();
    assert_eq!(signed.view().witnesses().get(0).unwrap().raw_data().to_vec(), witness);
    let again = sign_transaction(&signed, &[1u8; 32]).unwrap();
    assert_eq!(again.view().witnesses().get(0).unwrap().raw_data().to_vec(), witness);
    assert!(matches!(sign_transaction(&tx, &[0u8; 32]), Err(SignError::InvalidKey)));
}

#[test]
fn min_capacity_of_secp_lock() {
    assert_eq!(min_capacity(&lock(0)), Some(61 * 100_000_000));
    let empty = LockScript { code_hash: [0u8; 32], hash_type: 0, args: Vec::new() };
    assert_eq!(min_capacity(&empty), Some(41 * 100_000_000));
}
