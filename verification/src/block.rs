//! Sealed, hash-linked containers of transactions with proof-of-work metadata.
//!
//! A block's content hash is the SHA-256 digest of a canonical encoding of
//! (index, timestamp, previous hash, nonce, transactions).  A block other than
//! the genesis block is acceptable only when its hash meets the fixed
//! difficulty: its first [`DIFFICULTY`] bytes are zero.

use crate::codec::{append_chunk, append_u64, chunk_bytes, copy_bytes};
use crate::crypto;
use crate::transaction::{
    clone_transactions, tx_bytes, tx_views, tx_wf, Transaction, TransactionView,
};
use vstd::bytes::spec_u64_to_le_bytes;
use vstd::prelude::*;

verus! {

/// How many leading zero bytes the digest of a mined block must have.
pub const DIFFICULTY: usize = 1;

/// A sealed, hash-linked container of transactions.
pub struct Block {
    pub index: u64,
    pub timestamp: u64,
    pub transactions: Vec<Transaction>,
    pub previous_hash: Vec<u8>,
    pub nonce: u64,
    pub hash: Vec<u8>,
}

/// The mathematical model of a block.
#[verifier::ext_equal]
pub ghost struct BlockView {
    pub index: u64,
    pub timestamp: u64,
    pub transactions: Seq<TransactionView>,
    pub previous_hash: Seq<u8>,
    pub nonce: u64,
    pub hash: Seq<u8>,
}

impl View for Block {
    type V = BlockView;

    open spec fn view(&self) -> BlockView {
        BlockView {
            index: self.index,
            timestamp: self.timestamp,
            transactions: tx_views(self.transactions@),
            previous_hash: self.previous_hash@,
            nonce: self.nonce,
            hash: self.hash@,
        }
    }
}

/// The canonical encoding of a sequence of transactions, in order.
pub open spec fn txs_bytes(s: Seq<TransactionView>) -> Seq<u8>
    decreases s.len(),
{
    if s.len() == 0 {
        Seq::empty()
    } else {
        txs_bytes(s.drop_last()) + tx_bytes(s.last())
    }
}

/// One forward step of [`txs_bytes`]: encoding a prefix one longer appends the
/// encoding of the next transaction.
pub proof fn lemma_txs_bytes_take(s: Seq<TransactionView>, i: int)
    requires
        0 <= i < s.len(),
    ensures
        txs_bytes(s.take(i + 1)) == txs_bytes(s.take(i)) + tx_bytes(s[i]),
{
    assert(s.take(i + 1).drop_last() =~= s.take(i));
    assert(s.take(i + 1).last() == s[i]);
}

/// The byte string a block's content hash is computed over: everything but
/// the hash itself.
pub open spec fn block_message_of(
    index: u64,
    timestamp: u64,
    txs: Seq<TransactionView>,
    previous_hash: Seq<u8>,
    nonce: u64,
) -> Seq<u8> {
    spec_u64_to_le_bytes(index) + spec_u64_to_le_bytes(timestamp) + chunk_bytes(previous_hash)
        + spec_u64_to_le_bytes(nonce) + spec_u64_to_le_bytes(txs.len() as u64) + txs_bytes(txs)
}

/// The hashed byte string of a block.
pub open spec fn block_message(b: BlockView) -> Seq<u8> {
    block_message_of(b.index, b.timestamp, b.transactions, b.previous_hash, b.nonce)
}

/// A block's content hash: the digest of its canonical encoding.
pub open spec fn block_digest(b: BlockView) -> Seq<u8> {
    crypto::sha256_of(block_message(b))
}

/// The digest a candidate block with these parts would have.
pub open spec fn candidate_digest(
    index: u64,
    timestamp: u64,
    txs: Seq<TransactionView>,
    previous_hash: Seq<u8>,
    nonce: u64,
) -> Seq<u8> {
    crypto::sha256_of(block_message_of(index, timestamp, txs, previous_hash, nonce))
}

/// No nonce at all seals a block with these parts: the whole search space
/// fails the proof-of-work target.
pub open spec fn no_nonce_seals(
    index: u64,
    timestamp: u64,
    txs: Seq<TransactionView>,
    previous_hash: Seq<u8>,
) -> bool {
    forall|n: u64| !pow_ok(#[trigger] candidate_digest(index, timestamp, txs, previous_hash, n))
}

/// The proof-of-work target: a 32-byte digest whose first [`DIFFICULTY`]
/// bytes are zero.
pub open spec fn pow_ok(h: Seq<u8>) -> bool {
    &&& h.len() == 32
    &&& forall|i: int| 0 <= i < DIFFICULTY as int ==> h[i] == 0
}

/// A sealed block: its recorded hash is its content hash, and every
/// transaction in it respects the amount cap.
pub open spec fn block_wf(b: BlockView) -> bool {
    &&& b.hash == block_digest(b)
    &&& forall|i: int| 0 <= i < b.transactions.len() ==> tx_wf(#[trigger] b.transactions[i])
}

/// Builds the hashed byte string of a block from its parts.
fn message_of_parts(
    index: u64,
    timestamp: u64,
    transactions: &Vec<Transaction>,
    previous_hash: &Vec<u8>,
    nonce: u64,
) -> (r: Vec<u8>)
    ensures
        r@ == block_message_of(index, timestamp, tx_views(transactions@), previous_hash@, nonce),
{
    let mut out: Vec<u8> = Vec::new();
    append_u64(&mut out, index);
    append_u64(&mut out, timestamp);
    append_chunk(&mut out, previous_hash);
    append_u64(&mut out, nonce);
    append_u64(&mut out, transactions.len() as u64);
    let mut body: Vec<u8> = Vec::new();
    let n = transactions.len();
    let mut i: usize = 0;
    while i < n
        invariant
            n == transactions@.len(),
            i <= n,
            body@ == txs_bytes(tx_views(transactions@).take(i as int)),
        decreases n - i,
    {
        let mut enc = transactions[i].encoded();
        body.append(&mut enc);
        proof {
            lemma_txs_bytes_take(tx_views(transactions@), i as int);
        }
        i = i + 1;
    }
    assert(tx_views(transactions@).take(n as int) =~= tx_views(transactions@));
    out.append(&mut body);
    assert(out@ =~= block_message_of(
        index,
        timestamp,
        tx_views(transactions@),
        previous_hash@,
        nonce,
    ));
    out
}

/// Checks the proof-of-work target on a digest.
pub fn pow_check(h: &Vec<u8>) -> (r: bool)
    ensures
        r == pow_ok(h@),
{
    if h.len() != 32 {
        return false;
    }
    let mut i: usize = 0;
    while i < DIFFICULTY
        invariant
            h@.len() == 32,
            i <= DIFFICULTY,
            forall|j: int| 0 <= j < i ==> h@[j] == 0,
        decreases DIFFICULTY - i,
    {
        if h[i] != 0 {
            return false;
        }
        i = i + 1;
    }
    true
}

impl Clone for Block {
    /// A field-for-field copy; the model is unchanged.
    fn clone(&self) -> (r: Self)
        ensures
            r@ == self@,
    {
        let r = Block {
            index: self.index,
            timestamp: self.timestamp,
            transactions: clone_transactions(&self.transactions),
            previous_hash: copy_bytes(&self.previous_hash),
            nonce: self.nonce,
            hash: copy_bytes(&self.hash),
        };
        assert(r@ =~= self@);
        r
    }
}

impl Block {
    /// The byte string this block's content hash is computed over.
    pub fn message_bytes(&self) -> (r: Vec<u8>)
        ensures
            r@ == block_message(self@),
    {
        message_of_parts(
            self.index,
            self.timestamp,
            &self.transactions,
            &self.previous_hash,
            self.nonce,
        )
    }

    /// Recomputes this block's content hash from its fields.
    pub fn compute_hash(&self) -> (r: Vec<u8>)
        ensures
            r@ == block_digest(self@),
    {
        let msg = self.message_bytes();
        crypto::sha256(&msg)
    }
}

/// Searches nonces from zero upward for a content hash that meets the
/// difficulty, and seals the block with the first one found: the nonce is
/// the least solution.  `None` exactly when the whole nonce space fails the
/// target.
pub fn seal_block(
    index: u64,
    timestamp: u64,
    transactions: Vec<Transaction>,
    previous_hash: Vec<u8>,
) -> (r: Option<Block>)
    ensures
        r matches Some(b) ==> ({
            &&& b@.index == index
            &&& b@.timestamp == timestamp
            &&& b@.transactions == tx_views(transactions@)
            &&& b@.previous_hash == previous_hash@
            &&& b@.hash == block_digest(b@)
            &&& pow_ok(b@.hash)
            &&& forall|m: u64|
                m < b@.nonce ==> !pow_ok(
                    #[trigger] candidate_digest(
                        index,
                        timestamp,
                        tx_views(transactions@),
                        previous_hash@,
                        m,
                    ),
                )
        }),
        r is None ==> no_nonce_seals(index, timestamp, tx_views(transactions@), previous_hash@),
{
    let mut nonce: u64 = 0;
    loop
        invariant
            forall|m: u64|
                m < nonce ==> !pow_ok(
                    #[trigger] candidate_digest(
                        index,
                        timestamp,
                        tx_views(transactions@),
                        previous_hash@,
                        m,
                    ),
                ),
        decreases u64::MAX - nonce,
    {
        let msg = message_of_parts(index, timestamp, &transactions, &previous_hash, nonce);
        let h = crypto::sha256(&msg);
        if pow_check(&h) {
            let b = Block { index, timestamp, transactions, previous_hash, nonce, hash: h };
            return Some(b);
        }
        assert(!pow_ok(
            candidate_digest(index, timestamp, tx_views(transactions@), previous_hash@, nonce),
        ));
        if nonce == u64::MAX {
            return None;
        }
        nonce = nonce + 1;
    }
}

} // verus!
