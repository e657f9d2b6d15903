use essex::account::Account;
use essex::block::Block;
use essex::blockchain::{Blockchain, CHAIN_CAPACITY};
use essex::errors::EssexError;

fn block_with(id: &str, prev: &str, at: u64) -> Block {
    Block {
        block_hash: id.to_string(),
        prev_hash: prev.to_string(),
        validator: "v".to_string(),
        signature: "s".to_string(),
        block_data: vec!["d".to_string()],
        valid: true,
        timestamp: at,
    }
}

#[test]
fn genesis_is_valid_and_self_linked() {
    let g = Block::new(5);
    assert!(g.valid);
    assert_eq!(g.prev_hash, g.block_hash);
    assert_eq!(g.timestamp, 5);
    assert!(!g.block_data.is_empty());
}

#[test]
fn scenario_mint_and_append_grows_to_two() {
    let now: u64 = 1_000;
    let g = Block::new(now);
    let mut acc = Account::create("hello");
    acc.acc_balance = 50;
    let mut bc = Blockchain::new();
    assert_eq!(bc.add_block(g.clone()), Ok(true));
    assert_eq!(bc.chain.len(), 1);
    let minted = Block::create_essex_block(&g, &acc, "hello", Vec::new(), now)
        .expect("minting off a fresh genesis with stake 50 succeeds");
    assert_eq!(minted.prev_hash, g.block_hash);
    assert_eq!(bc.add_block(minted), Ok(true));
    assert_eq!(bc.chain.len(), 2);
}

#[test]
fn scenario_insufficient_stake_leaves_chain_alone() {
    let now: u64 = 1_000;
    let g = Block::new(now);
    let mut acc = Account::create("hello");
    acc.acc_balance = 10;
    let mut bc = Blockchain::new();
    assert_eq!(bc.add_block(g.clone()), Ok(true));
    let r = Block::create_essex_block(&g, &acc, "hello", Vec::new(), now);
    assert_eq!(r.unwrap_err(), EssexError::InsufficientStake);
    assert_eq!(bc.chain.len(), 1);
}

#[test]
fn stake_exactly_at_minimum_is_refused() {
    let now: u64 = 1_000;
    let g = Block::new(now);
    let mut acc = Account::create("hello");
    acc.acc_balance = 30;
    let r = Block::create_essex_block(&g, &acc, "hello", Vec::new(), now);
    assert_eq!(r.unwrap_err(), EssexError::InsufficientStake);
}

#[test]
fn append_refuses_unlinked_block() {
    let mut bc = Blockchain::new();
    assert_eq!(bc.add_block(block_with("a", "a", 1)), Ok(true));
    let stray = block_with("c", "not-the-tip", 2);
    assert_eq!(bc.add_block(stray), Err(EssexError::LinkageMismatch));
    assert_eq!(bc.chain.len(), 1);
}

#[test]
fn append_at_capacity_is_a_no_op() {
    let mut bc = Blockchain::new();
    let mut prev = String::from("seed");
    for i in 0..CHAIN_CAPACITY {
        let id = format!("b{}", i);
        assert_eq!(bc.add_block(block_with(&id, &prev, i as u64)), Ok(true));
        prev = id;
    }
    assert_eq!(bc.chain.len(), CHAIN_CAPACITY);
    let tip_before = bc.chain.last().unwrap().block_hash.clone();
    let extra = block_with("overflow", &prev, 99);
    assert_eq!(bc.add_block(extra), Ok(false));
    assert_eq!(bc.chain.len(), CHAIN_CAPACITY);
    assert_eq!(bc.chain.last().unwrap().block_hash, tip_before);
}

#[test]
fn chain_linkage_holds_throughout() {
    let mut bc = Blockchain::new();
    let mut prev = String::from("root");
    for i in 0..5u64 {
        let id = format!("n{}", i);
        assert_eq!(bc.add_block(block_with(&id, &prev, i)), Ok(true));
        prev = id;
    }
    for i in 1..bc.chain.len() {
        assert_eq!(bc.chain[i].prev_hash, bc.chain[i - 1].block_hash);
    }
}

#[test]
fn race_against_one_tip_admits_exactly_one() {
    let now: u64 = 50;
    let g = Block::new(now);
    let mut acc = Account::create("hello");
    acc.acc_balance = 40;
    let mut bc = Blockchain::new();
    assert_eq!(bc.add_block(g.clone()), Ok(true));
    let first = Block::create_essex_block(&g, &acc, "hello", Vec::new(), now).unwrap();
    let second = Block::create_essex_block(&g, &acc, "hello", Vec::new(), now).unwrap();
    assert_eq!(bc.add_block(first), Ok(true));
    assert_eq!(bc.add_block(second), Err(EssexError::LinkageMismatch));
    assert_eq!(bc.chain.len(), 2);
}

#[test]
fn tip_is_empty_then_last() {
    let mut bc = Blockchain::new();
    assert!(bc.tip().is_none());
    bc.add_block(block_with("x", "x", 1)).unwrap();
    bc.add_block(block_with("y", "x", 2)).unwrap();
    assert_eq!(bc.tip().unwrap().block_hash, "y");
}
