//! Validator identities: an elliptic-curve key pair, a signature over an
//! agreed message, and a stake balance that gates block authorship.
//!
//! Keys and signatures are carried in their display forms, as the ledger
//! itself only ever compares and records them; the secp256k1 collaborator
//! does the signing and verifying behind two trusted wrappers.

use vstd::prelude::*;

verus! {

/// What it means for `sig` (an ECDSA signature in display form) to verify
/// against `pk` (a compressed public key in display form) and the SHA-256
/// digest of the bytes of `msg`. secp256k1 computes this as a pure function
/// of the three strings; it is named here, never written out.
pub uninterp spec fn sig_verifies(pk: Seq<char>, sig: Seq<char>, msg: Seq<char>) -> bool;

/// A validator identity: a signing key pair, a signature over the message
/// agreed at creation, and the stake balance that gates authorship.
#[derive(Clone, Debug)]
pub struct Account {
    pub acc_private: String,
    pub acc_public: String,
    pub acc_signed: String,
    pub acc_balance: u32,
}

/// Relies on secp256k1: `generate_keypair` draws a fresh key pair;
/// `sign_ecdsa` signs the SHA-256 digest of `msg` with an RFC 6979 nonce,
/// and `verify_ecdsa` accepts that signature under the matching public key
/// (its own documented example asserts exactly this); the `Display` and
/// `FromStr` forms of secret keys, public keys and signatures round-trip.
/// Returns (secret, public, signature), each in display form.
#[verifier::external_body]
pub(crate) fn new_identity_keys(msg: &str) -> (r: (String, String, String))
    ensures
        sig_verifies(r.1@, r.2@, msg@),
{
    let secp = secp256k1::Secp256k1::new();
    let (secret, public) = secp.generate_keypair(&mut rand::rngs::OsRng);
    let digest = secp256k1::Message::from_hashed_data::<secp256k1::hashes::sha256::Hash>(
        msg.as_bytes(),
    );
    let sig = secp.sign_ecdsa(&digest, &secret);
    (secret.display_secret().to_string(), public.to_string(), sig.to_string())
}

/// Relies on secp256k1 `verify_ecdsa`: parses the display forms back into a
/// public key and a signature and checks the signature against the SHA-256
/// digest of the bytes of `msg`. The outcome depends on the three strings
/// alone; display forms that do not parse never verify.
#[verifier::external_body]
pub(crate) fn signature_matches(pk: &str, sig: &str, msg: &str) -> (r: bool)
    ensures
        r == sig_verifies(pk@, sig@, msg@),
{
    let public = match <secp256k1::PublicKey as core::str::FromStr>::from_str(pk) {
        Ok(p) => p,
        Err(_) => return false,
    };
    let signature = match <secp256k1::ecdsa::Signature as core::str::FromStr>::from_str(sig) {
        Ok(s) => s,
        Err(_) => return false,
    };
    let digest = secp256k1::Message::from_hashed_data::<secp256k1::hashes::sha256::Hash>(
        msg.as_bytes(),
    );
    secp256k1::Secp256k1::new().verify_ecdsa(&digest, &signature, &public).is_ok()
}

impl Account {
    /// Creates a fresh identity whose signature is over `msg`; the caller
    /// keeps `msg`, as minting a block asks for the same message again.
    /// The stake balance starts at zero.
    pub fn create(msg: &str) -> (acc: Account)
        ensures
            acc.acc_balance == 0,
            sig_verifies(acc.acc_public@, acc.acc_signed@, msg@),
    {
        let (secret, public, signed) = new_identity_keys(msg);
        Account { acc_private: secret, acc_public: public, acc_signed: signed, acc_balance: 0 }
    }
}

/// A node in a tree of values: its own values and its children.
#[derive(Debug)]
pub struct ANode {
    pub values: Vec<i32>,
    pub childs: Vec<ANode>,
}

/// A node in a singly linked chain of values.
#[derive(Debug)]
pub struct LNode {
    pub dx: i32,
    pub dy: Box<Option<LNode>>,
}

/// Two chains of nodes, kept head first.
#[derive(Debug)]
pub struct LNodeLeafs {
    pub head: Box<Option<LNode>>,
    pub tail: Box<Option<LNode>>,
}

/// The values along the chain starting at `n`, first to last.
pub open spec fn lnode_seq(n: LNode) -> Seq<i32>
    decreases n,
{
    match *n.dy {
        Some(m) => seq![n.dx] + lnode_seq(m),
        None => seq![n.dx],
    }
}

/// The values along an optional chain: nothing when there is no node.
pub open spec fn lnode_opt_seq(o: Option<LNode>) -> Seq<i32> {
    match o {
        Some(n) => lnode_seq(n),
        None => Seq::empty(),
    }
}

/// The values of both chains of `z`, head chain first.
pub open spec fn leafs_seq(z: LNodeLeafs) -> Seq<i32> {
    lnode_opt_seq(*z.head) + lnode_opt_seq(*z.tail)
}

/// Appends the values along the chain starting at `n` to `out`.
fn push_chain_vals(n: &LNode, out: &mut Vec<i32>)
    ensures
        final(out)@ == old(out)@ + lnode_seq(*n),
    decreases *n,
{
    out.push(n.dx);
    match &*n.dy {
        Some(m) => {
            push_chain_vals(m, out);
        },
        None => {
        },
    }
}

/// Appends the values along an optional chain to `out`.
fn push_opt_chain_vals(o: &Option<LNode>, out: &mut Vec<i32>)
    ensures
        final(out)@ == old(out)@ + lnode_opt_seq(*o),
{
    match o {
        Some(n) => {
            push_chain_vals(n, out);
        },
        None => {
            assert(old(out)@ + lnode_opt_seq(*o) =~= old(out)@);
        },
    }
}

impl LNode {
    /// Whether `v` is zero.
    pub fn zero_check(&self, v: i32) -> (r: bool)
        ensures
            r == (v == 0),
    {
        let data: i32 = 0;
        if v == data {
            return true;
        }
        false
    }

    /// A fresh, empty node: value zero and no successor.
    pub fn new(&self) -> (r: LNode)
        ensures
            r.dx == 0,
            *r.dy is None,
            lnode_seq(r) == seq![0i32],
    {
        let r = LNode { dx: 0, dy: Box::new(None) };
        assert(lnode_seq(r) =~= seq![0i32]);
        r
    }

    /// Every value reachable from `z`, head chain first, in chain order.
    pub fn lnode_walk(&self, z: &LNodeLeafs) -> (r: Vec<i32>)
        ensures
            r@ == leafs_seq(*z),
    {
        let mut out: Vec<i32> = Vec::new();
        assert(out@ + lnode_opt_seq(*z.head) =~= lnode_opt_seq(*z.head));
        push_opt_chain_vals(&*z.head, &mut out);
        push_opt_chain_vals(&*z.tail, &mut out);
        out
    }
}

/// The values of `a`'s whole tree: its own values, then each child's tree
/// in order.
pub open spec fn anode_seq(a: ANode) -> Seq<i32>
    decreases a,
{
    a.values@ + anodes_seq(a.childs@)
}

/// The trees of the nodes of `s`, flattened in order.
pub open spec fn anodes_seq(s: Seq<ANode>) -> Seq<i32>
    decreases s,
{
    if s.len() == 0 {
        Seq::empty()
    } else {
        anode_seq(s[0]) + anodes_seq(s.drop_first())
    }
}

proof fn lemma_anodes_seq_push(s: Seq<ANode>, a: ANode)
    ensures
        anodes_seq(s.push(a)) == anodes_seq(s) + anode_seq(a),
    decreases s.len(),
{
    if s.len() == 0 {
        assert(s =~= Seq::<ANode>::empty());
        assert(s.push(a)[0] == a);
        assert(s.push(a).drop_first() =~= s);
        assert(anodes_seq(s.push(a)) == anode_seq(a) + anodes_seq(s));
        assert(anodes_seq(s) == Seq::<i32>::empty());
        assert(anode_seq(a) + Seq::<i32>::empty() =~= Seq::<i32>::empty() + anode_seq(a));
    } else {
        assert(s.push(a).drop_first() =~= s.drop_first().push(a));
        assert(s.push(a)[0] == s[0]);
        assert(anodes_seq(s.push(a)) == anode_seq(s[0]) + anodes_seq(s.drop_first().push(a)));
        lemma_anodes_seq_push(s.drop_first(), a);
        assert(anode_seq(s[0]) + (anodes_seq(s.drop_first()) + anode_seq(a)) =~= (anode_seq(s[0])
            + anodes_seq(s.drop_first())) + anode_seq(a));
        assert(anodes_seq(s) == anode_seq(s[0]) + anodes_seq(s.drop_first()));
    }
}

proof fn lemma_anodes_seq_snoc(s: Seq<ANode>, i: int)
    requires
        0 <= i < s.len(),
    ensures
        anodes_seq(s.take(i + 1)) == anodes_seq(s.take(i)) + anode_seq(s[i]),
{
    assert(s.take(i + 1) =~= s.take(i).push(s[i]));
    lemma_anodes_seq_push(s.take(i), s[i]);
}

impl ANode {
    /// Every value in the tree rooted at `self`, the node's own values
    /// first, then each child's tree in order.
    pub fn anode_val(&self) -> (r: Vec<i32>)
        ensures
            r@ == anode_seq(*self),
        decreases *self,
    {
        let mut out: Vec<i32> = Vec::new();
        let n = self.values.len();
        let mut i: usize = 0;
        while i < n
            invariant
                n == self.values@.len(),
                0 <= i <= n,
                out@ == self.values@.take(i as int),
            decreases n - i,
        {
            out.push(self.values[i]);
            assert(out@ =~= self.values@.take(i as int + 1));
            i = i + 1;
        }
        assert(self.values@.take(n as int) =~= self.values@);
        let m = self.childs.len();
        let mut j: usize = 0;
        assert(anodes_seq(self.childs@.take(0)) == Seq::<i32>::empty()) by {
            assert(self.childs@.take(0) =~= Seq::<ANode>::empty());
        }
        assert(out@ + anodes_seq(self.childs@.take(0)) =~= out@);
        while j < m
            invariant
                m == self.childs@.len(),
                0 <= j <= m,
                out@ == self.values@ + anodes_seq(self.childs@.take(j as int)),
            decreases m - j,
        {
            proof {
                assert(decreases_to!(*self => self.childs));
                assert(decreases_to!(self.childs => self.childs@[j as int]));
            }
            let mut sub = self.childs[j].anode_val();
            out.append(&mut sub);
            proof {
                lemma_anodes_seq_snoc(self.childs@, j as int);
            }
            j = j + 1;
        }
        assert(self.childs@.take(m as int) =~= self.childs@);
        out
    }
}

/// Walks the values reachable from a pair of chains, one value a call.
pub struct LNodeLeafsIterator {
    pub items: Vec<i32>,
    pub pos: usize,
}

impl LNodeLeafsIterator {
    /// An iterator over every value reachable from `z`, head chain first.
    pub fn new(z: &LNodeLeafs) -> (it: Self)
        ensures
            it.items@ == leafs_seq(*z),
            it.pos == 0,
    {
        let mut items: Vec<i32> = Vec::new();
        assert(items@ + lnode_opt_seq(*z.head) =~= lnode_opt_seq(*z.head));
        push_opt_chain_vals(&*z.head, &mut items);
        push_opt_chain_vals(&*z.tail, &mut items);
        LNodeLeafsIterator { items, pos: 0 }
    }

    /// The next value, or nothing once the walk is done.
    pub fn next(&mut self) -> (r: Option<i32>)
        ensures
            final(self).items@ == old(self).items@,
            old(self).pos < old(self).items@.len() ==> r == Some(
                old(self).items@[old(self).pos as int],
            ) && final(self).pos == old(self).pos + 1,
            old(self).pos >= old(self).items@.len() ==> r is None && final(self).pos == old(
                self,
            ).pos,
    {
        if self.pos < self.items.len() {
            let v = self.items[self.pos];
            self.pos = self.pos + 1;
            Some(v)
        } else {
            None
        }
    }
}

/// Walks the values of a tree of nodes, one value a call.
pub struct ANodeIterator {
    pub items: Vec<i32>,
    pub pos: usize,
}

impl ANodeIterator {
    /// An iterator over every value in the tree rooted at `a`.
    pub fn new(a: &ANode) -> (it: Self)
        ensures
            it.items@ == anode_seq(*a),
            it.pos == 0,
    {
        ANodeIterator { items: a.anode_val(), pos: 0 }
    }

    /// The next value, or nothing once the walk is done.
    pub fn next(&mut self) -> (r: Option<i32>)
        ensures
            final(self).items@ == old(self).items@,
            old(self).pos < old(self).items@.len() ==> r == Some(
                old(self).items@[old(self).pos as int],
            ) && final(self).pos == old(self).pos + 1,
            old(self).pos >= old(self).items@.len() ==> r is None && final(self).pos == old(
                self,
            ).pos,
    {
        if self.pos < self.items.len() {
            let v = self.items[self.pos];
            self.pos = self.pos + 1;
            Some(v)
        } else {
            None
        }
    }
}

} // verus!
