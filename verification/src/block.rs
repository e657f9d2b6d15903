//! The block validation and assembly engine.
//!
//! `validate_block` decides whether a candidate parent may be extended;
//! `create_essex_block` mints a new block for a validator, with every
//! authorization check ordered strictly before the block is constructed.
//! Time enters as an explicit count of seconds, handed in by the caller.

use vstd::prelude::*;

use crate::account;
use crate::account::Account;
use crate::account::sig_verifies;
use crate::errors::EssexError;

verus! {

/// The stake a validator must exceed to mint a block.
pub const MIN_STAKE: u32 = 30;

/// The maximum age, in seconds, of a block's timestamp for the block to
/// still validate: two hours.
pub const FRESHNESS_WINDOW: u64 = 7200;

/// A ledger entry. `block_hash` identifies the block, `prev_hash` names the
/// block it extended, and `valid` is set exactly once, at acceptance.
#[derive(Clone, Debug)]
pub struct Block {
    pub block_hash: String,
    pub prev_hash: String,
    pub validator: String,
    pub signature: String,
    pub block_data: Vec<String>,
    pub valid: bool,
    pub timestamp: u64,
}

/// A block, field for field, with every string taken as its character
/// sequence: the form the contracts and the codec speak of.
pub struct BlockView {
    pub block_hash: Seq<char>,
    pub prev_hash: Seq<char>,
    pub validator: Seq<char>,
    pub signature: Seq<char>,
    pub block_data: Seq<Seq<char>>,
    pub valid: bool,
    pub timestamp: u64,
}

impl View for Block {
    type V = BlockView;

    open spec fn view(&self) -> BlockView {
        BlockView {
            block_hash: self.block_hash@,
            prev_hash: self.prev_hash@,
            validator: self.validator@,
            signature: self.signature@,
            block_data: self.block_data.deep_view(),
            valid: self.valid,
            timestamp: self.timestamp,
        }
    }
}

/// Whether `b` is a valid parent at time `now`: it was accepted, its
/// timestamp lies within the freshness window ending at `now`, and its
/// payload is non-empty.
pub open spec fn spec_validate(b: Block, now: u64) -> bool {
    &&& b.valid
    &&& b.timestamp <= now
    &&& now - b.timestamp <= FRESHNESS_WINDOW
    &&& b.block_data@.len() > 0
}

/// The freshness law: a block whose timestamp is older than the freshness
/// window never validates, whatever its other fields hold.
pub proof fn lemma_stale_block_invalid(b: Block, now: u64)
    requires
        b.timestamp + FRESHNESS_WINDOW < now,
    ensures
        !spec_validate(b, now),
{
}

impl Block {
    /// The genesis block at time `now`: its parent is itself, it is valid by
    /// construction, and it carries a one-element marker payload, so it
    /// validates as a parent while the window lasts.
    pub fn new(now: u64) -> (r: Block)
        ensures
            r.valid,
            r.prev_hash@ == r.block_hash@,
            r.block_data@.len() == 1,
            r.block_data@[0]@ == "genesis"@,
            r.timestamp == now,
            spec_validate(r, now),
    {
        let (secret, public, signed) = account::new_identity_keys("");
        let id_again = secret.clone();
        let mut data: Vec<String> = Vec::new();
        data.push("genesis".to_owned());
        Block {
            block_hash: secret,
            prev_hash: id_again,
            validator: public,
            signature: signed,
            block_data: data,
            valid: true,
            timestamp: now,
        }
    }

    /// Whether `prevblock` may be extended at time `now`: false as soon as
    /// the block was never accepted, its timestamp is in the future or older
    /// than the freshness window, or its payload is empty.
    pub fn validate_block(prevblock: &Block, now: u64) -> (r: bool)
        ensures
            r == spec_validate(*prevblock, now),
    {
        prevblock.valid && prevblock.timestamp <= now && now - prevblock.timestamp
            <= FRESHNESS_WINDOW && prevblock.block_data.len() > 0
    }

    /// Mints a block extending `parent`, authored by `acc` and carrying
    /// `payload`, at time `now`. `msg` is the message `acc` signed at
    /// creation. The checks are ordered and fail closed, each before any
    /// block is constructed: the parent must validate, the stake must exceed
    /// the minimum, and the signature must verify. On success the new block
    /// links to `parent`, records the validator and signature, and is valid;
    /// its identifier is drawn fresh and is not pinned here. Appending to a
    /// chain is a separate, explicit step.
    pub fn create_essex_block(
        parent: &Block,
        acc: &Account,
        msg: &str,
        payload: Vec<String>,
        now: u64,
    ) -> (r: Result<Block, EssexError>)
        ensures
            r == Err::<Block, EssexError>(EssexError::InvalidParent) <==> !spec_validate(
                *parent,
                now,
            ),
            spec_validate(*parent, now) ==> (r == Err::<Block, EssexError>(
                EssexError::InsufficientStake,
            ) <==> acc.acc_balance <= MIN_STAKE),
            spec_validate(*parent, now) && acc.acc_balance > MIN_STAKE ==> (r == Err::<
                Block,
                EssexError,
            >(EssexError::BadSignature) <==> !sig_verifies(acc.acc_public@, acc.acc_signed@, msg@)),
            r is Ok <==> spec_validate(*parent, now) && acc.acc_balance > MIN_STAKE
                && sig_verifies(acc.acc_public@, acc.acc_signed@, msg@),
            r matches Ok(b) ==> {
                &&& b.prev_hash@ == parent.block_hash@
                &&& b.validator@ == acc.acc_public@
                &&& b.signature@ == acc.acc_signed@
                &&& b.block_data == payload
                &&& b.valid == true
                &&& b.timestamp == now
            },
    {
        if !Block::validate_block(parent, now) {
            return Err(EssexError::InvalidParent);
        }
        if acc.acc_balance <= MIN_STAKE {
            return Err(EssexError::InsufficientStake);
        }
        if !account::signature_matches(acc.acc_public.as_str(), acc.acc_signed.as_str(), msg) {
            return Err(EssexError::BadSignature);
        }
        let (id, _verifier_key) = crate::sec8::sec8_block_id_hash();
        Ok(
            Block {
                block_hash: id,
                prev_hash: parent.block_hash.clone(),
                validator: acc.acc_public.clone(),
                signature: acc.acc_signed.clone(),
                block_data: payload,
                valid: true,
                timestamp: now,
            },
        )
    }
}

} // verus!
