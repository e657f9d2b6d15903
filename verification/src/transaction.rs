//! The transaction pool: an append-only audit log of transactions that
//! reference an account and a block. Entries are never removed or mutated
//! once added; the pool gates nothing.

use vstd::prelude::*;

use crate::account::Account;
use crate::block::Block;
use crate::errors::EssexError;

verus! {

#[verifier::external_type_specification]
#[verifier::external_body]
pub struct ExRsaPrivateKey(rsa::RsaPrivateKey);

#[verifier::external_type_specification]
#[verifier::external_body]
pub struct ExRsaPublicKey(rsa::RsaPublicKey);

/// A transaction's identifying header: a freshly drawn RSA key pair serving
/// as a unique identifier, carried opaquely and never read by the ledger.
pub struct TxHeader {
    pub transaction_id: rsa::RsaPrivateKey,
    pub transaction_hash: rsa::RsaPublicKey,
    pub transaction_valid: bool,
}

/// A transaction: the originating account, the referenced block, an amount,
/// a unique header and a creation time.
pub struct Transaction {
    pub tx_user: Account,
    pub timestamp: u64,
    pub tx_header: TxHeader,
    pub tx_block: Block,
    pub tx_amount: u32,
}

/// The append-only, insertion-ordered log of transactions.
pub struct TransactionPool {
    pub transactions: Vec<Transaction>,
}

/// Relies on rsa `RsaPrivateKey::new` and `RsaPublicKey::from`: draws a
/// fresh RSA key pair of `bits_size` bits to serve as a transaction
/// identifier. Generation retries until it succeeds and has no failure path
/// from 64 bits up to the 4096-bit cap that key validation enforces, and
/// deriving the public half never fails.
#[verifier::external_body]
fn new_tx_keys(bits_size: usize) -> (r: Option<(rsa::RsaPrivateKey, rsa::RsaPublicKey)>)
    ensures
        64 <= bits_size <= 4096 ==> r is Some,
{
    let mut rng = rand::thread_rng();
    let secret = match rsa::RsaPrivateKey::new(&mut rng, bits_size) {
        Ok(k) => k,
        Err(_) => return None,
    };
    let public = rsa::RsaPublicKey::from(&secret);
    Some((secret, public))
}

impl Transaction {
    /// Builds a transaction from `user` against `blockdata` over `amount` at
    /// time `now`. Construction is structural: nothing is validated, the
    /// pool being an audit log and not a consensus gate. It always succeeds:
    /// drawing the 512-bit identifier has no failure path, so the error arm
    /// below is proved unreachable.
    pub fn new(user: Account, blockdata: Block, amount: u32, now: u64) -> (r: Result<
        Transaction,
        EssexError,
    >)
        ensures
            r is Ok,
            r matches Ok(tx) ==> {
                &&& tx.tx_user == user
                &&& tx.timestamp == now
                &&& tx.tx_block == blockdata
                &&& tx.tx_amount == amount
                &&& tx.tx_header.transaction_valid == true
            },
    {
        match new_tx_keys(512) {
            Some((tx_id, tx_hash)) => Ok(
                Transaction {
                    tx_user: user,
                    timestamp: now,
                    tx_header: TxHeader {
                        transaction_id: tx_id,
                        transaction_hash: tx_hash,
                        transaction_valid: true,
                    },
                    tx_block: blockdata,
                    tx_amount: amount,
                },
            ),
            None => Err(EssexError::IdGeneration),
        }
    }
}

impl TransactionPool {
    /// An empty pool.
    pub fn new() -> (r: Self)
        ensures
            r.transactions@.len() == 0,
    {
        TransactionPool { transactions: Vec::new() }
    }

    /// Appends `tx` to the log and reports success; entries are never
    /// removed or rewritten.
    pub fn add_to_pool(&mut self, tx: Transaction) -> (r: bool)
        ensures
            final(self).transactions@ == old(self).transactions@.push(tx),
            r == true,
    {
        self.transactions.push(tx);
        true
    }

    /// The whole log, in insertion order.
    pub fn fetch_txs(&self) -> (r: &Vec<Transaction>)
        ensures
            r@ == self.transactions@,
    {
        &self.transactions
    }
}

} // verus!
