//! The service facade: one shared ledger behind a verified reader-writer
//! lock, plus the plain record types the surrounding service layer exchanges.
//!
//! All mutating and reading operations go through the lock, whose invariant
//! is ledger well-formedness: every caller receives a well-formed ledger and
//! must hand a well-formed one back, whatever the interleaving.

use crate::block::{no_nonce_seals, Block};
use crate::crypto;
use crate::ledger::{
    balance_in, block_views, chain_txs, chain_wf, mined, reward_tx, Ledger, LedgerView,
};
use crate::transaction::{address_of, payload_bytes, tx_views};
use crate::wallet::{reconstruct_ok, Wallet, WalletError};
use crate::AMOUNT_LIMIT;
use vstd::prelude::*;
use vstd::rwlock::{RwLock, RwLockPredicate};

verus! {

/// Why a transfer request was refused.
#[derive(Clone, Copy, Debug, PartialEq, Eq, Structural)]
pub enum TransferError {
    /// The supplied key material does not form a keypair.
    InvalidKeyMaterial,
    /// The supplied address is not the one derived from the public key.
    AddressMismatch,
    /// The transfer amount is negative or above the fixed cap.
    InvalidAmount,
    /// The signer refused the key material.
    KeyFailure,
    /// The signed transaction failed the ledger's admission check.
    RejectedTransaction,
}

/// The lock invariant on the shared ledger: well-formedness.
pub struct LedgerInv;

impl RwLockPredicate<Ledger> for LedgerInv {
    open spec fn inv(self, v: Ledger) -> bool {
        v@.wf()
    }
}

/// A transfer request as the service layer receives it on the wire: hex
/// strings for the key material and addresses, and a decimal string for the
/// amount.  The service layer decodes the fields to bytes and an integer
/// before calling [`ApiServer::submit_transfer`].
pub struct Transaction {
    pub private_key: String,
    pub public_key: String,
    pub blockchain_address: String,
    pub recipient_address: String,
    pub amount: String,
}

/// A snapshot of the sealed history, with its length alongside.
pub struct TransactionsInBlockChain {
    pub transaction_count: usize,
    pub transactions: Vec<crate::transaction::Transaction>,
}

/// The shared ledger and the port the surrounding service listens on.
pub struct ApiServer {
    pub port: u16,
    ledger: RwLock<Ledger, LedgerInv>,
}

impl ApiServer {
    /// The port the surrounding service listens on.
    pub closed spec fn spec_port(&self) -> u16 {
        self.port
    }

    /// Creates the node's mining wallet, a ledger rewarding its address, and
    /// the lock that serializes all access to it.
    pub fn new(port: u16) -> (s: ApiServer)
        ensures
            s.spec_port() == port,
    {
        let miner = Wallet::create();
        let ledger = Ledger::new(miner.get_address());
        ApiServer { port, ledger: RwLock::new(ledger, Ghost(LedgerInv)) }
    }

    /// The balance of an address in some well-formed state of the shared
    /// ledger.
    pub fn balance(&self, address: &Vec<u8>) -> (r: i128)
        ensures
            exists|l: LedgerView| l.wf() && r == balance_in(chain_txs(l.chain), address@),
    {
        let read = self.ledger.acquire_read();
        let amount = read.borrow().balance_of(address);
        read.release_read();
        amount
    }

    /// Mines one block on the shared ledger.  True means the ledger moved
    /// from a well-formed state to a well-formed state in one mining step;
    /// false only when, for the state held and the timestamp drawn, the
    /// whole nonce space missed the proof-of-work target.
    pub fn mine(&self) -> (r: bool)
        ensures
            r ==> exists|pre: LedgerView, post: LedgerView|
                pre.wf() && post.wf() && mined(pre, post),
            !r ==> exists|pre: LedgerView, ts: u64|
                pre.wf() && #[trigger] no_nonce_seals(
                    pre.chain.len() as u64,
                    ts,
                    pre.pending.push(reward_tx(pre.miner_address)),
                    pre.chain.last().hash,
                ),
    {
        let (mut ledger, handle) = self.ledger.acquire_write();
        let ghost pre = ledger@;
        let outcome = ledger.mine();
        let ghost post = ledger@;
        handle.release_write(ledger);
        match outcome {
            Ok(_) => {
                proof {
                    assert(pre.wf() && post.wf() && mined(pre, post));
                }
                true
            },
            Err(_) => {
                proof {
                    let ts = choose|ts: u64|
                        #[trigger] no_nonce_seals(
                            pre.chain.len() as u64,
                            ts,
                            pre.pending.push(reward_tx(pre.miner_address)),
                            pre.chain.last().hash,
                        );
                    assert(pre.wf() && no_nonce_seals(
                        pre.chain.len() as u64,
                        ts,
                        pre.pending.push(reward_tx(pre.miner_address)),
                        pre.chain.last().hash,
                    ));
                }
                false
            },
        }
    }

    /// Rebuilds a wallet from the submitted key material, signs the transfer
    /// with it, and submits the signed transaction to the shared ledger.
    /// Succeeds exactly when the key triple is consistent, the amount is in
    /// range and the deterministic signer accepts the payload; each failure
    /// is pinned to its cause.  A transaction this function signs is always
    /// valid, so the ledger's admission check never rejects it.
    pub fn submit_transfer(
        &self,
        public_key: &Vec<u8>,
        secret_key: &Vec<u8>,
        sender_address: &Vec<u8>,
        recipient_address: &Vec<u8>,
        amount: i64,
    ) -> (r: Result<(), TransferError>)
        ensures
            (r is Ok) <==> (reconstruct_ok(public_key@, secret_key@, sender_address@) && 0
                <= amount <= AMOUNT_LIMIT as i64 && crypto::sign_ok(
                secret_key@,
                payload_bytes(sender_address@, recipient_address@, amount as u64),
            )),
            (!(crypto::secret_key_ok(secret_key@) && public_key@ == crypto::public_key_of(
                secret_key@,
            ))) <==> r == Err::<(), TransferError>(TransferError::InvalidKeyMaterial),
            (crypto::secret_key_ok(secret_key@) && public_key@ == crypto::public_key_of(
                secret_key@,
            ) && sender_address@ != address_of(public_key@)) <==> r == Err::<(), TransferError>(
                TransferError::AddressMismatch,
            ),
            (reconstruct_ok(public_key@, secret_key@, sender_address@) && (amount < 0 || amount
                > AMOUNT_LIMIT as i64)) <==> r == Err::<(), TransferError>(
                TransferError::InvalidAmount,
            ),
            (reconstruct_ok(public_key@, secret_key@, sender_address@) && 0 <= amount
                <= AMOUNT_LIMIT as i64 && !crypto::sign_ok(
                secret_key@,
                payload_bytes(sender_address@, recipient_address@, amount as u64),
            )) <==> r == Err::<(), TransferError>(TransferError::KeyFailure),
    {
        let wallet = match Wallet::reconstruct(public_key, secret_key, sender_address) {
            Ok(w) => w,
            Err(WalletError::AddressMismatch) => {
                return Err(TransferError::AddressMismatch);
            },
            Err(_) => {
                return Err(TransferError::InvalidKeyMaterial);
            },
        };
        let tx = match wallet.sign_transfer(recipient_address, amount) {
            Ok(t) => t,
            Err(WalletError::InvalidAmount) => {
                return Err(TransferError::InvalidAmount);
            },
            Err(_) => {
                return Err(TransferError::KeyFailure);
            },
        };
        let (mut ledger, handle) = self.ledger.acquire_write();
        let outcome = ledger.submit(tx);
        handle.release_write(ledger);
        match outcome {
            Ok(_) => Ok(()),
            Err(_) => Err(TransferError::RejectedTransaction),
        }
    }

    /// A snapshot of the sealed history of some well-formed state of the
    /// shared ledger, with its length.
    pub fn show_transactions(&self) -> (r: TransactionsInBlockChain)
        ensures
            r.transaction_count == r.transactions@.len(),
            exists|l: LedgerView| l.wf() && tx_views(r.transactions@) == chain_txs(l.chain),
    {
        let read = self.ledger.acquire_read();
        let transactions = read.borrow().all_transactions();
        read.release_read();
        let transaction_count = transactions.len();
        TransactionsInBlockChain { transaction_count, transactions }
    }

    /// A snapshot of the sealed chain: always a well-formed chain, whatever
    /// sequence of submissions and mining calls preceded it.
    pub fn blocks(&self) -> (r: Vec<Block>)
        ensures
            chain_wf(block_views(r@)),
    {
        let read = self.ledger.acquire_read();
        let chain = read.borrow().blocks();
        read.release_read();
        chain
    }
}

} // verus!
