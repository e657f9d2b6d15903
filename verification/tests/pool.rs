use essex::account::Account;
use essex::block::Block;
use essex::sec8::{check_payload_round_trip, sec8_block_id_hash, sec8_encrypt_block_data, sec8_tx_id_hash};
use essex::transaction::{Transaction, TransactionPool};

fn some_block(at: u64) -> Block {
    Block {
        block_hash: "b".to_string(),
        prev_hash: "a".to_string(),
        validator: "v".to_string(),
        signature: "s".to_string(),
        block_data: vec!["d".to_string()],
        valid: true,
        timestamp: at,
    }
}

#[test]
fn transaction_records_its_parts() {
    let acc = Account::create("hello");
    let tx = Transaction::new(acc.clone(), some_block(9), 17, 42).unwrap();
    assert_eq!(tx.tx_user.acc_public, acc.acc_public);
    assert_eq!(tx.tx_block.block_hash, "b");
    assert_eq!(tx.tx_amount, 17);
    assert_eq!(tx.timestamp, 42);
    assert!(tx.tx_header.transaction_valid);
}

#[test]
fn pool_appends_in_order_and_keeps_everything() {
    let acc = Account::create("hello");
    let mut pool = TransactionPool::new();
    for amount in [5u32, 6, 7] {
        let tx = Transaction::new(acc.clone(), some_block(1), amount, 1).unwrap();
        assert!(pool.add_to_pool(tx));
    }
    let all = pool.fetch_txs();
    let amounts: Vec<u32> = all.iter().map(|t| t.tx_amount).collect();
    assert_eq!(amounts, vec![5, 6, 7]);
    assert_eq!(pool.transactions.len(), 3);
}

#[test]
fn id_hashes_are_fresh_nonempty_display_forms() {
    let (tx_secret, tx_public) = sec8_tx_id_hash();
    let (blk_secret, blk_public) = sec8_block_id_hash();
    assert_eq!(tx_secret.len(), 64);
    assert_eq!(blk_secret.len(), 64);
    assert!(!tx_public.is_empty());
    assert!(!blk_public.is_empty());
    assert_ne!(tx_secret, blk_secret);
}

#[test]
fn encryption_changes_the_bytes_and_fills_the_modulus() {
    let data = b"block data";
    let ct = sec8_encrypt_block_data(2048, data).unwrap();
    assert_eq!(ct.len(), 256);
    assert_ne!(&ct[..data.len()], &data[..]);
}

#[test]
fn small_key_capacity_bounds_encryption() {
    // A 512-bit modulus spans 64 bytes; PKCS#1 v1.5 keeps 11 of them.
    let ct = sec8_encrypt_block_data(512, &[7u8; 53]).unwrap();
    assert_eq!(ct.len(), 64);
    assert!(sec8_encrypt_block_data(512, &[7u8; 54]).is_none());
}

#[test]
fn payload_round_trip_restores_the_bytes() {
    assert!(check_payload_round_trip(b"jim's ledger payload"));
}

#[test]
fn oversized_payload_fails_the_round_trip() {
    // A 2048-bit modulus spans 256 bytes; 246 payload bytes overrun the
    // 11 bytes the padding keeps.
    assert!(check_payload_round_trip(&[7u8; 245]));
    assert!(!check_payload_round_trip(&[7u8; 246]));
}
