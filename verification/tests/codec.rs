use essex::account::Account;
use essex::block::Block;
use essex::blockchain::Blockchain;
use essex::codec::{deserialize, serialize};

fn sample_block() -> Block {
    Block {
        block_hash: "0123abcd".to_string(),
        prev_hash: "feedbeef".to_string(),
        validator: "validator-key".to_string(),
        signature: "signature-bytes".to_string(),
        block_data: vec!["first".to_string(), "".to_string(), "dritte Zeile 🙂".to_string()],
        valid: true,
        timestamp: 1_234_567_890,
    }
}

#[test]
fn round_trip_reproduces_every_field() {
    let b = sample_block();
    let bytes = serialize(&b);
    let back = deserialize(bytes.as_slice()).expect("serialized bytes decode");
    assert_eq!(back.block_hash, b.block_hash);
    assert_eq!(back.prev_hash, b.prev_hash);
    assert_eq!(back.validator, b.validator);
    assert_eq!(back.signature, b.signature);
    assert_eq!(back.block_data, b.block_data);
    assert_eq!(back.valid, b.valid);
    assert_eq!(back.timestamp, b.timestamp);
}

#[test]
fn round_trip_of_an_unaccepted_empty_block() {
    let b = Block {
        block_hash: String::new(),
        prev_hash: String::new(),
        validator: String::new(),
        signature: String::new(),
        block_data: Vec::new(),
        valid: false,
        timestamp: 0,
    };
    let bytes = serialize(&b);
    let back = deserialize(bytes.as_slice()).unwrap();
    assert_eq!(back.block_hash, "");
    assert_eq!(back.block_data.len(), 0);
    assert!(!back.valid);
    assert_eq!(back.timestamp, 0);
}

#[test]
fn empty_input_is_refused() {
    assert!(deserialize(&[]).is_err());
}

#[test]
fn truncated_input_is_refused() {
    let bytes = serialize(&sample_block());
    let short = &bytes[..bytes.len() - 1];
    assert!(deserialize(short).is_err());
}

#[test]
fn trailing_bytes_are_refused() {
    let mut bytes = serialize(&sample_block());
    bytes.push(0);
    assert!(deserialize(bytes.as_slice()).is_err());
}

#[test]
fn mangled_validity_byte_is_refused() {
    let mut bytes = serialize(&sample_block());
    bytes[8] = 2;
    assert!(deserialize(bytes.as_slice()).is_err());
}

#[test]
fn invalid_utf8_is_refused() {
    let b = sample_block();
    let mut bytes = serialize(&b);
    // The first string's bytes start after the timestamp, the validity byte
    // and the first length prefix.
    bytes[17] = 0xFF;
    assert!(deserialize(bytes.as_slice()).is_err());
}

#[test]
fn validity_byte_sits_after_the_timestamp() {
    let mut b = sample_block();
    b.valid = true;
    let bytes = serialize(&b);
    assert_eq!(bytes[8], 1);
    b.valid = false;
    let bytes = serialize(&b);
    assert_eq!(bytes[8], 0);
}

#[test]
fn replicated_block_extends_a_replica_chain() {
    let now: u64 = 500;
    let genesis = Block::new(now);
    let mut acc = Account::create("hello");
    acc.acc_balance = 50;
    let minted = Block::create_essex_block(&genesis, &acc, "hello", Vec::new(), now).unwrap();

    let mut local = Blockchain::new();
    local.add_block(genesis.clone()).unwrap();
    let wire = serialize(&minted);
    local.add_block(minted).unwrap();

    let mut replica = Blockchain::new();
    replica.add_block(genesis).unwrap();
    let received = deserialize(wire.as_slice()).unwrap();
    assert!(received.valid);
    assert_eq!(replica.add_block(received), Ok(true));
    assert_eq!(replica.chain.len(), 2);
    assert_eq!(replica.chain[1].block_hash, local.chain[1].block_hash);
}

#[test]
fn timestamp_is_little_endian_at_the_front() {
    let mut b = sample_block();
    b.timestamp = 0x0102030405060708;
    let bytes = serialize(&b);
    assert_eq!(&bytes[..8], &[0x08, 0x07, 0x06, 0x05, 0x04, 0x03, 0x02, 0x01]);
}
