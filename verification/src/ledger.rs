//! The ledger: an append-only chain of sealed blocks plus a pending pool.
//!
//! The chain starts at a genesis block and grows only by mining, which seals
//! every pending transaction plus one reward transaction into a new block
//! whose hash meets the proof-of-work target and whose `previous_hash` is the
//! hash of the block before it.

use crate::block::{
    block_digest, block_wf, no_nonce_seals, pow_ok, seal_block, Block, BlockView,
};
use crate::codec::copy_bytes;
use crate::crypto;
use crate::transaction::{
    clone_transactions, tx_valid, tx_views, tx_wf, verify, Transaction, TransactionView,
};
use crate::AMOUNT_LIMIT;
use vstd::prelude::*;

verus! {

/// The fixed amount credited to the miner's address by each mined block.
pub const MINING_REWARD: u64 = 1;

/// Why a submitted transaction was refused.
#[derive(Clone, Copy, Debug, PartialEq, Eq, Structural)]
pub enum LedgerError {
    /// The transaction failed the signature or address check.
    RejectedTransaction,
}

/// Why a mining attempt failed.  Never raised for "puzzle not yet solved":
/// the nonce search runs to completion.
#[derive(Clone, Copy, Debug, PartialEq, Eq, Structural)]
pub enum MiningFault {
    /// No nonce in the whole search space met the target.
    NonceSpaceExhausted,
}

/// The models of a sequence of blocks.
pub open spec fn block_views(s: Seq<Block>) -> Seq<BlockView> {
    s.map_values(|b: Block| b@)
}

/// The sender recorded on reward transactions: the empty address, which no
/// public-key digest equals.
pub open spec fn reward_sender() -> Seq<u8> {
    Seq::empty()
}

/// The synthetic transaction that credits the miner in each mined block.
pub open spec fn reward_tx(miner: Seq<u8>) -> TransactionView {
    TransactionView {
        sender: reward_sender(),
        recipient: miner,
        amount: MINING_REWARD,
        public_key: Seq::empty(),
        signature: Seq::empty(),
    }
}

/// A well-formed chain: a genesis block with no transactions and an empty
/// previous-hash sentinel, every block sealed at its position, and every
/// later block's hash meeting the proof-of-work target and linking to the
/// block before it.
pub open spec fn chain_wf(chain: Seq<BlockView>) -> bool {
    &&& chain.len() >= 1
    &&& chain[0].previous_hash == Seq::<u8>::empty()
    &&& chain[0].transactions.len() == 0
    &&& forall|i: int| 0 <= i < chain.len() ==> block_wf(#[trigger] chain[i])
    &&& forall|i: int| 0 <= i < chain.len() ==> (#[trigger] chain[i].index) as int == i
    &&& forall|i: int| 1 <= i < chain.len() ==> pow_ok(#[trigger] chain[i].hash)
    &&& forall|i: int| 1 <= i < chain.len() ==> (#[trigger] chain[i]).previous_hash == chain[
        i - 1
    ].hash
}

/// Every transaction in every sealed block, in chain order.
pub open spec fn chain_txs(chain: Seq<BlockView>) -> Seq<TransactionView>
    decreases chain.len(),
{
    if chain.len() == 0 {
        Seq::empty()
    } else {
        chain_txs(chain.drop_last()) + chain.last().transactions
    }
}

/// What one transaction contributes to an address's balance: plus the amount
/// when the address receives, minus the amount when it sends.
pub open spec fn tx_delta(t: TransactionView, addr: Seq<u8>) -> int {
    (if t.recipient == addr {
        t.amount as int
    } else {
        0
    }) - (if t.sender == addr {
        t.amount as int
    } else {
        0
    })
}

/// The net balance of an address over a sequence of transactions.
pub open spec fn balance_in(txs: Seq<TransactionView>, addr: Seq<u8>) -> int
    decreases txs.len(),
{
    if txs.len() == 0 {
        0
    } else {
        balance_in(txs.drop_last(), addr) + tx_delta(txs.last(), addr)
    }
}

/// The single source of truth: the sealed chain, the pending pool and the
/// miner's address.
pub struct Ledger {
    chain: Vec<Block>,
    pending: Vec<Transaction>,
    miner_address: Vec<u8>,
}

/// The mathematical model of a ledger.
#[verifier::ext_equal]
pub ghost struct LedgerView {
    pub chain: Seq<BlockView>,
    pub pending: Seq<TransactionView>,
    pub miner_address: Seq<u8>,
}

impl View for Ledger {
    type V = LedgerView;

    closed spec fn view(&self) -> LedgerView {
        LedgerView {
            chain: block_views(self.chain@),
            pending: tx_views(self.pending@),
            miner_address: self.miner_address@,
        }
    }
}

impl LedgerView {
    /// A well-formed ledger: a well-formed chain and a pending pool whose
    /// transactions all respect the amount cap.
    pub open spec fn wf(self) -> bool {
        &&& chain_wf(self.chain)
        &&& forall|i: int| 0 <= i < self.pending.len() ==> tx_wf(#[trigger] self.pending[i])
    }
}

/// The relation a successful `mine` establishes between the ledger before
/// and after: one new sealed block holding the old pending pool plus the
/// reward transaction, linked to the old tip, and an emptied pool.
pub open spec fn mined(pre: LedgerView, post: LedgerView) -> bool {
    &&& post.miner_address == pre.miner_address
    &&& post.pending.len() == 0
    &&& post.chain.len() == pre.chain.len() + 1
    &&& post.chain.take(pre.chain.len() as int) == pre.chain
    &&& post.chain.last().transactions == pre.pending.push(reward_tx(pre.miner_address))
    &&& post.chain.last().previous_hash == pre.chain.last().hash
    &&& (post.chain.last().index as int) == pre.chain.len()
    &&& pow_ok(post.chain.last().hash)
    &&& block_wf(post.chain.last())
}

/// Mapping block models commutes with pushing a block.
pub proof fn lemma_block_views_push(s: Seq<Block>, b: Block)
    ensures
        block_views(s.push(b)) == block_views(s).push(b@),
{
    assert(block_views(s.push(b)) =~= block_views(s).push(b@));
}

/// Mapping transaction models commutes with pushing a transaction.
pub proof fn lemma_tx_views_push(s: Seq<Transaction>, t: Transaction)
    ensures
        tx_views(s.push(t)) == tx_views(s).push(t@),
{
    assert(tx_views(s.push(t)) =~= tx_views(s).push(t@));
}

/// Mapping transaction models commutes with concatenation.
pub proof fn lemma_tx_views_concat(a: Seq<Transaction>, b: Seq<Transaction>)
    ensures
        tx_views(a + b) == tx_views(a) + tx_views(b),
{
    assert(tx_views(a + b) =~= tx_views(a) + tx_views(b));
}

/// One forward step of [`chain_txs`]: the transactions of a prefix one block
/// longer are those of the shorter prefix plus the next block's.
pub proof fn lemma_chain_txs_take(chain: Seq<BlockView>, i: int)
    requires
        0 <= i < chain.len(),
    ensures
        chain_txs(chain.take(i + 1)) == chain_txs(chain.take(i)) + chain[i].transactions,
{
    assert(chain.take(i + 1).drop_last() =~= chain.take(i));
    assert(chain.take(i + 1).last() == chain[i]);
}

/// In a chain of sealed blocks, every flattened transaction respects the
/// amount cap.
pub proof fn lemma_chain_txs_wf(chain: Seq<BlockView>)
    requires
        forall|i: int| 0 <= i < chain.len() ==> block_wf(#[trigger] chain[i]),
    ensures
        forall|j: int|
            0 <= j < chain_txs(chain).len() ==> tx_wf(#[trigger] chain_txs(chain)[j]),
    decreases chain.len(),
{
    if chain.len() > 0 {
        let prefix = chain.drop_last();
        assert(forall|i: int| 0 <= i < prefix.len() ==> block_wf(#[trigger] prefix[i]));
        lemma_chain_txs_wf(prefix);
        let ptxs = chain_txs(prefix);
        let last_txs = chain.last().transactions;
        assert(block_wf(chain.last()));
        assert forall|j: int| 0 <= j < chain_txs(chain).len() implies tx_wf(
            #[trigger] chain_txs(chain)[j],
        ) by {
            if j < ptxs.len() {
                assert(chain_txs(chain)[j] == ptxs[j]);
            } else {
                assert(chain_txs(chain)[j] == last_txs[j - ptxs.len()]);
            }
        }
    }
}

/// One forward step of [`balance_in`] over a prefix.
pub proof fn lemma_balance_take(txs: Seq<TransactionView>, addr: Seq<u8>, i: int)
    requires
        0 <= i < txs.len(),
    ensures
        balance_in(txs.take(i + 1), addr) == balance_in(txs.take(i), addr) + tx_delta(
            txs[i],
            addr,
        ),
{
    assert(txs.take(i + 1).drop_last() =~= txs.take(i));
    assert(txs.take(i + 1).last() == txs[i]);
}

/// Balances add over concatenation.
pub proof fn lemma_balance_concat(a: Seq<TransactionView>, b: Seq<TransactionView>, addr: Seq<u8>)
    ensures
        balance_in(a + b, addr) == balance_in(a, addr) + balance_in(b, addr),
    decreases b.len(),
{
    if b.len() == 0 {
        assert(a + b =~= a);
    } else {
        lemma_balance_concat(a, b.drop_last(), addr);
        assert((a + b).drop_last() =~= a + b.drop_last());
        assert((a + b).last() == b.last());
    }
}

/// An address that no transaction in the sequence sends to or from has
/// balance zero over it.
pub proof fn lemma_balance_untouched(txs: Seq<TransactionView>, addr: Seq<u8>)
    requires
        forall|i: int|
            0 <= i < txs.len() ==> (#[trigger] txs[i]).sender != addr && txs[i].recipient != addr,
    ensures
        balance_in(txs, addr) == 0,
    decreases txs.len(),
{
    if txs.len() > 0 {
        lemma_balance_untouched(txs.drop_last(), addr);
    }
}

impl Ledger {
    /// Constructs a ledger with a genesis block: no transactions, the empty
    /// previous-hash sentinel, and the given miner address as the reward
    /// recipient for later mining.
    pub fn new(miner_address: Vec<u8>) -> (l: Ledger)
        ensures
            l@.wf(),
            l@.miner_address == miner_address@,
            l@.chain.len() == 1,
            l@.pending.len() == 0,
            chain_txs(l@.chain) == Seq::<TransactionView>::empty(),
    {
        let timestamp = crypto::unix_time();
        let mut genesis = Block {
            index: 0,
            timestamp,
            transactions: Vec::new(),
            previous_hash: Vec::new(),
            nonce: 0,
            hash: Vec::new(),
        };
        let digest = genesis.compute_hash();
        genesis.hash = digest;
        let mut chain: Vec<Block> = Vec::new();
        chain.push(genesis);
        let l = Ledger { chain, pending: Vec::new(), miner_address };
        proof {
            assert(l@.chain =~= seq![l@.chain[0]]);
            assert(chain_txs(l@.chain.drop_last()) == Seq::<TransactionView>::empty());
            assert(chain_txs(l@.chain) =~= Seq::<TransactionView>::empty());
        }
        l
    }

    /// Admits a transaction to the pending pool exactly when it is valid:
    /// the signature verifies under the embedded public key, the sender
    /// address is derived from that key, and the amount is within the cap.
    /// An invalid transaction is discarded and the ledger is unchanged.  No
    /// sufficient-funds check is made: balances may go negative.
    ///
    /// Validity is the only admission check, as in the baseline design: a
    /// byte-identical resubmission of an already-mined transaction (the
    /// signature is deterministic) is admitted and mined again, debiting the
    /// sender once more.  Keeping the pool disjoint from the sealed history
    /// would need a duplicate check here, which the admission procedure
    /// deliberately leaves out.
    pub fn submit(&mut self, tx: Transaction) -> (r: Result<(), LedgerError>)
        requires
            old(self)@.wf(),
        ensures
            final(self)@.wf(),
            (r is Ok) <==> tx_valid(tx@),
            r is Ok ==> final(self)@.chain == old(self)@.chain && final(self)@.pending == old(
                self,
            )@.pending.push(tx@) && final(self)@.miner_address == old(self)@.miner_address,
            r is Err ==> final(self)@ == old(self)@ && r == Err::<(), LedgerError>(
                LedgerError::RejectedTransaction,
            ),
    {
        if !verify(&tx) {
            return Err(LedgerError::RejectedTransaction);
        }
        proof {
            lemma_tx_views_push(self.pending@, tx);
        }
        self.pending.push(tx);
        proof {
            let pre = old(self)@;
            let grown = pre.pending.push(tx@);
            assert forall|i: int| 0 <= i < grown.len() implies tx_wf(#[trigger] grown[i]) by {
                if i < pre.pending.len() {
                    assert(grown[i] == pre.pending[i]);
                    assert(tx_wf(pre.pending[i]));
                } else {
                    assert(grown[i] == tx@);
                }
            }
        }
        Ok(())
    }

    /// Seals the pending pool plus one reward transaction into a new block:
    /// searches for a nonce meeting the proof-of-work target, appends the
    /// sealed block to the chain, and empties the pool.  Fails only when for
    /// the drawn timestamp the whole nonce space misses the target; the
    /// ledger is then unchanged and the attempt can be retried.
    pub fn mine(&mut self) -> (r: Result<(), MiningFault>)
        requires
            old(self)@.wf(),
        ensures
            final(self)@.wf(),
            r is Ok ==> mined(old(self)@, final(self)@),
            r is Err ==> final(self)@ == old(self)@ && r == Err::<(), MiningFault>(
                MiningFault::NonceSpaceExhausted,
            ) && (exists|ts: u64|
                #[trigger] no_nonce_seals(
                    old(self)@.chain.len() as u64,
                    ts,
                    old(self)@.pending.push(reward_tx(old(self)@.miner_address)),
                    old(self)@.chain.last().hash,
                )),
    {
        let timestamp = crypto::unix_time();
        let mut txs = clone_transactions(&self.pending);
        let reward = Transaction {
            sender: Vec::new(),
            recipient: copy_bytes(&self.miner_address),
            amount: MINING_REWARD,
            public_key: Vec::new(),
            signature: Vec::new(),
        };
        proof {
            lemma_tx_views_push(txs@, reward);
        }
        txs.push(reward);
        assert(tx_views(txs@) == old(self)@.pending.push(reward_tx(old(self)@.miner_address)))
            by {
            assert(reward@ =~= reward_tx(old(self)@.miner_address));
        }
        let tip = self.chain.len() - 1;
        let previous_hash = copy_bytes(&self.chain[tip].hash);
        let index = self.chain.len() as u64;
        proof {
            assert(previous_hash@ == old(self)@.chain.last().hash);
            assert(index == old(self)@.chain.len());
        }
        let sealed = match seal_block(index, timestamp, txs, previous_hash) {
            Some(b) => b,
            None => {
                proof {
                    let pre = old(self)@;
                    assert(no_nonce_seals(
                        pre.chain.len() as u64,
                        timestamp,
                        pre.pending.push(reward_tx(pre.miner_address)),
                        pre.chain.last().hash,
                    ));
                }
                return Err(MiningFault::NonceSpaceExhausted);
            },
        };
        proof {
            lemma_block_views_push(self.chain@, sealed);
        }
        self.chain.push(sealed);
        self.pending = Vec::new();
        proof {
            let pre = old(self)@;
            let post = LedgerView {
                chain: pre.chain.push(sealed@),
                pending: Seq::empty(),
                miner_address: pre.miner_address,
            };
            assert(post.chain.take(pre.chain.len() as int) =~= pre.chain);
            assert(post.chain.last() == sealed@);
            assert forall|i: int| 0 <= i < post.chain.len() implies block_wf(
                #[trigger] post.chain[i],
            ) && (post.chain[i].index as int) == i by {
                if i < pre.chain.len() {
                    assert(post.chain[i] == pre.chain[i]);
                }
            }
            assert(chain_wf(post.chain));
        }
        Ok(())
    }

    /// The net balance of an address: every sealed transaction to it adds
    /// its amount, every sealed transaction from it subtracts it.  Pending
    /// transactions do not count.
    pub fn balance_of(&self, address: &Vec<u8>) -> (r: i128)
        requires
            self@.wf(),
        ensures
            r == balance_in(chain_txs(self@.chain), address@),
    {
        let txs = self.all_transactions();
        proof {
            lemma_chain_txs_wf(self@.chain);
        }
        let ghost all = chain_txs(self@.chain);
        let n = txs.len();
        let mut acc: i128 = 0;
        let mut i: usize = 0;
        while i < n
            invariant
                n == txs@.len(),
                i <= n,
                tx_views(txs@) == all,
                forall|j: int| 0 <= j < all.len() ==> tx_wf(#[trigger] all[j]),
                acc == balance_in(all.take(i as int), address@),
                -(i as int) * (AMOUNT_LIMIT as int) <= acc <= (i as int) * (AMOUNT_LIMIT as int),
            decreases n - i,
        {
            let tx = &txs[i];
            assert(tx@ == all[i as int]);
            let mut delta: i128 = 0;
            if crate::codec::bytes_eq(&tx.recipient, address) {
                delta = tx.amount as i128;
            }
            if crate::codec::bytes_eq(&tx.sender, address) {
                delta = delta - tx.amount as i128;
            }
            assert(delta == tx_delta(all[i as int], address@));
            proof {
                lemma_balance_take(all, address@, i as int);
            }
            acc = acc + delta;
            i = i + 1;
        }
        assert(all.take(n as int) =~= all);
        acc
    }

    /// Every transaction in every sealed block, flattened in chain order.
    /// A snapshot copy: pending transactions are not included.
    pub fn all_transactions(&self) -> (r: Vec<Transaction>)
        ensures
            tx_views(r@) == chain_txs(self@.chain),
    {
        let mut out: Vec<Transaction> = Vec::new();
        let nb = self.chain.len();
        let mut i: usize = 0;
        while i < nb
            invariant
                nb == self.chain@.len(),
                i <= nb,
                tx_views(out@) == chain_txs(block_views(self.chain@).take(i as int)),
            decreases nb - i,
        {
            let mut block_txs = clone_transactions(&self.chain[i].transactions);
            let ghost prev = out@;
            let ghost incoming = block_txs@;
            proof {
                lemma_chain_txs_take(block_views(self.chain@), i as int);
                lemma_tx_views_concat(prev, incoming);
                assert(block_views(self.chain@)[i as int].transactions == tx_views(incoming));
            }
            out.append(&mut block_txs);
            i = i + 1;
        }
        assert(block_views(self.chain@).take(nb as int) =~= block_views(self.chain@));
        out
    }

    /// A snapshot copy of the sealed chain.
    pub fn blocks(&self) -> (r: Vec<Block>)
        ensures
            block_views(r@) == self@.chain,
    {
        let mut out: Vec<Block> = Vec::new();
        let n = self.chain.len();
        let mut i: usize = 0;
        while i < n
            invariant
                n == self.chain@.len(),
                i <= n,
                out@.len() == i,
                block_views(out@) == block_views(self.chain@).take(i as int),
            decreases n - i,
        {
            let ghost prev = out@;
            let copied = self.chain[i].clone();
            assert(copied@ == self.chain@[i as int]@);
            out.push(copied);
            proof {
                lemma_block_views_push(prev, copied);
            }
            assert(block_views(out@) =~= block_views(self.chain@).take(i + 1 as int));
            i = i + 1;
        }
        assert(block_views(self.chain@).take(n as int) =~= block_views(self.chain@));
        out
    }

    /// A snapshot copy of the pending pool, in arrival order.
    pub fn pending_transactions(&self) -> (r: Vec<Transaction>)
        ensures
            tx_views(r@) == self@.pending,
    {
        clone_transactions(&self.pending)
    }

    /// The address that mining rewards are credited to.
    pub fn miner_address(&self) -> (r: Vec<u8>)
        ensures
            r@ == self@.miner_address,
    {
        copy_bytes(&self.miner_address)
    }
}

/// Chain linkage: in a well-formed ledger, every sealed block's
/// `previous_hash` is the content digest of the block immediately before it.
/// This holds after any sequence of `submit` and `mine` calls, since both
/// preserve well-formedness.
pub proof fn lemma_chain_linked(l: LedgerView)
    requires
        l.wf(),
    ensures
        forall|i: int|
            1 <= i < l.chain.len() ==> (#[trigger] l.chain[i]).previous_hash == block_digest(
                l.chain[i - 1],
            ),
{
    assert forall|i: int| 1 <= i < l.chain.len() implies (
    #[trigger] l.chain[i]).previous_hash == block_digest(l.chain[i - 1]) by {
        assert(block_wf(l.chain[i - 1]));
    }
}

/// After a successful mine, the sealed history is exactly the old history,
/// then every transaction that was pending (in arrival order, each once),
/// then the reward transaction; and the pending pool is empty.
pub proof fn lemma_mined_transactions(pre: LedgerView, post: LedgerView)
    requires
        mined(pre, post),
    ensures
        chain_txs(post.chain) == chain_txs(pre.chain) + pre.pending.push(
            reward_tx(pre.miner_address),
        ),
        post.pending.len() == 0,
{
    assert(post.chain.drop_last() =~= pre.chain);
    assert(chain_txs(post.chain) == chain_txs(post.chain.drop_last())
        + post.chain.last().transactions);
}

/// A successful mine raises the miner's balance by exactly the fixed reward
/// when no pending transaction touches the miner's address.
pub proof fn lemma_mining_reward(pre: LedgerView, post: LedgerView)
    requires
        pre.wf(),
        mined(pre, post),
        pre.miner_address != reward_sender(),
        forall|i: int|
            0 <= i < pre.pending.len() ==> (#[trigger] pre.pending[i]).sender != pre.miner_address
                && pre.pending[i].recipient != pre.miner_address,
    ensures
        balance_in(chain_txs(post.chain), pre.miner_address) == balance_in(
            chain_txs(pre.chain),
            pre.miner_address,
        ) + MINING_REWARD,
{
    let rt = reward_tx(pre.miner_address);
    let batch = pre.pending.push(rt);
    lemma_mined_transactions(pre, post);
    lemma_balance_concat(chain_txs(pre.chain), batch, pre.miner_address);
    assert(batch.drop_last() =~= pre.pending);
    assert(batch.last() == rt);
    lemma_balance_untouched(pre.pending, pre.miner_address);
    assert(tx_delta(rt, pre.miner_address) == MINING_REWARD);
}

/// One transfer sealed by one mine: when the pool holds a single transaction
/// from `a_addr` to `b_addr` and the two parties are distinct from each
/// other, from the miner's address and from the reward sender, a successful
/// mine raises `b_addr`'s balance by the amount, lowers `a_addr`'s by the
/// same (balances may go negative: no funds check), and grows the sealed
/// history by exactly two transactions (the transfer and the reward).
pub proof fn lemma_transfer_scenario(
    pre: LedgerView,
    post: LedgerView,
    a_addr: Seq<u8>,
    b_addr: Seq<u8>,
)
    requires
        pre.wf(),
        mined(pre, post),
        pre.pending.len() == 1,
        pre.pending[0].sender == a_addr,
        pre.pending[0].recipient == b_addr,
        a_addr != b_addr,
        a_addr != pre.miner_address,
        b_addr != pre.miner_address,
        a_addr != reward_sender(),
        b_addr != reward_sender(),
    ensures
        balance_in(chain_txs(post.chain), b_addr) == balance_in(chain_txs(pre.chain), b_addr)
            + pre.pending[0].amount,
        balance_in(chain_txs(post.chain), a_addr) == balance_in(chain_txs(pre.chain), a_addr)
            - pre.pending[0].amount,
        chain_txs(post.chain).len() == chain_txs(pre.chain).len() + 2,
{
    let rt = reward_tx(pre.miner_address);
    let batch = pre.pending.push(rt);
    lemma_mined_transactions(pre, post);
    lemma_balance_concat(chain_txs(pre.chain), batch, a_addr);
    lemma_balance_concat(chain_txs(pre.chain), batch, b_addr);
    assert(batch.drop_last() =~= pre.pending);
    assert(batch.last() == rt);
    assert(pre.pending.drop_last() =~= Seq::<TransactionView>::empty());
    assert(pre.pending.last() == pre.pending[0]);
    assert(balance_in(Seq::<TransactionView>::empty(), a_addr) == 0);
    assert(balance_in(Seq::<TransactionView>::empty(), b_addr) == 0);
    assert(balance_in(pre.pending, a_addr) == balance_in(pre.pending.drop_last(), a_addr)
        + tx_delta(pre.pending.last(), a_addr));
    assert(balance_in(pre.pending, b_addr) == balance_in(pre.pending.drop_last(), b_addr)
        + tx_delta(pre.pending.last(), b_addr));
    assert(tx_delta(rt, a_addr) == 0);
    assert(tx_delta(rt, b_addr) == 0);
}

} // verus!
