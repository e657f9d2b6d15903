use essex::account::{Account, ANode, ANodeIterator, LNode, LNodeLeafs, LNodeLeafsIterator};
use essex::block::Block;
use essex::errors::EssexError;

fn fresh_parent(at: u64) -> Block {
    Block {
        block_hash: "parent-id".to_string(),
        prev_hash: "older".to_string(),
        validator: "v".to_string(),
        signature: "s".to_string(),
        block_data: vec!["d".to_string()],
        valid: true,
        timestamp: at,
    }
}

#[test]
fn created_account_starts_without_stake() {
    let acc = Account::create("hello");
    assert_eq!(acc.acc_balance, 0);
    assert!(!acc.acc_public.is_empty());
    assert!(!acc.acc_signed.is_empty());
}

#[test]
fn created_signature_authorizes_only_its_message() {
    let mut acc = Account::create("hello");
    acc.acc_balance = 50;
    let parent = fresh_parent(100);
    assert!(Block::create_essex_block(&parent, &acc, "hello", Vec::new(), 100).is_ok());
    let wrong = Block::create_essex_block(&parent, &acc, "other", Vec::new(), 100);
    assert_eq!(wrong.unwrap_err(), EssexError::BadSignature);
}

#[test]
fn signatures_do_not_transfer_between_accounts() {
    let a = Account::create("hello");
    let b = Account::create("hello");
    let borrowed = Account {
        acc_private: b.acc_private,
        acc_public: b.acc_public,
        acc_signed: a.acc_signed,
        acc_balance: 50,
    };
    let parent = fresh_parent(100);
    let r = Block::create_essex_block(&parent, &borrowed, "hello", Vec::new(), 100);
    assert_eq!(r.unwrap_err(), EssexError::BadSignature);
}

fn node(v: i32, next: Option<LNode>) -> LNode {
    LNode { dx: v, dy: Box::new(next) }
}

fn chain(vals: &[i32]) -> Option<LNode> {
    let mut next: Option<LNode> = None;
    for v in vals.iter().rev() {
        next = Some(node(*v, next));
    }
    next
}

#[test]
fn zero_check_only_accepts_zero() {
    let n = node(7, None);
    assert!(n.zero_check(0));
    assert!(!n.zero_check(3));
    assert!(!n.zero_check(-1));
}

#[test]
fn fresh_node_is_empty() {
    let seed = node(9, None);
    let n = seed.new();
    assert_eq!(n.dx, 0);
    assert!(n.dy.is_none());
}

#[test]
fn walk_visits_head_chain_then_tail_chain() {
    let probe = node(0, None);
    let leafs = LNodeLeafs {
        head: Box::new(chain(&[1, 2, 3])),
        tail: Box::new(chain(&[10, 20])),
    };
    let vals = probe.lnode_walk(&leafs);
    assert_eq!(vals, vec![1, 2, 3, 10, 20]);
}

#[test]
fn walk_of_empty_leafs_is_empty() {
    let probe = node(0, None);
    let leafs = LNodeLeafs { head: Box::new(None), tail: Box::new(None) };
    assert_eq!(probe.lnode_walk(&leafs), Vec::<i32>::new());
}

#[test]
fn leaf_iterator_yields_each_value_once() {
    let leafs = LNodeLeafs { head: Box::new(chain(&[4, 5])), tail: Box::new(None) };
    let mut it = LNodeLeafsIterator::new(&leafs);
    assert_eq!(it.next(), Some(4));
    assert_eq!(it.next(), Some(5));
    assert_eq!(it.next(), None);
    assert_eq!(it.next(), None);
}

#[test]
fn tree_values_come_parent_first() {
    let tree = ANode {
        values: vec![1, 2],
        childs: vec![
            ANode { values: vec![3], childs: vec![ANode { values: vec![4], childs: vec![] }] },
            ANode { values: vec![5, 6], childs: vec![] },
        ],
    };
    assert_eq!(tree.anode_val(), vec![1, 2, 3, 4, 5, 6]);
}

#[test]
fn tree_iterator_matches_the_flattening() {
    let tree = ANode {
        values: vec![7],
        childs: vec![ANode { values: vec![8, 9], childs: vec![] }],
    };
    let mut it = ANodeIterator::new(&tree);
    assert_eq!(it.next(), Some(7));
    assert_eq!(it.next(), Some(8));
    assert_eq!(it.next(), Some(9));
    assert_eq!(it.next(), None);
}
