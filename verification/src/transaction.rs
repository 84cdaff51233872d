//! Signed transfer records.
//!
//! A transaction carries a transfer (sender address, recipient address,
//! amount) together with the sender's public key and an ECDSA signature over
//! the transfer payload.  It is valid when the signature verifies under the
//! embedded public key and the sender address is the digest of that key.

use crate::codec::{append_chunk, append_u64, bytes_eq, chunk_bytes};
use crate::crypto;
use crate::AMOUNT_LIMIT;
use vstd::bytes::spec_u64_to_le_bytes;
use vstd::prelude::*;

verus! {

/// An immutable signed record of a transfer.
pub struct Transaction {
    pub sender: Vec<u8>,
    pub recipient: Vec<u8>,
    pub amount: u64,
    pub public_key: Vec<u8>,
    pub signature: Vec<u8>,
}

/// The mathematical model of a transaction: the same fields as byte sequences.
#[verifier::ext_equal]
pub ghost struct TransactionView {
    pub sender: Seq<u8>,
    pub recipient: Seq<u8>,
    pub amount: u64,
    pub public_key: Seq<u8>,
    pub signature: Seq<u8>,
}

impl View for Transaction {
    type V = TransactionView;

    open spec fn view(&self) -> TransactionView {
        TransactionView {
            sender: self.sender@,
            recipient: self.recipient@,
            amount: self.amount,
            public_key: self.public_key@,
            signature: self.signature@,
        }
    }
}

/// The address that identifies a public key: its SHA-256 digest.
pub open spec fn address_of(public_key: Seq<u8>) -> Seq<u8> {
    crypto::sha256_of(public_key)
}

/// The byte string a transfer signature is computed over: the sender, the
/// recipient (each length-prefixed) and the amount.
pub open spec fn payload_bytes(sender: Seq<u8>, recipient: Seq<u8>, amount: u64) -> Seq<u8> {
    chunk_bytes(sender) + chunk_bytes(recipient) + spec_u64_to_le_bytes(amount)
}

/// The canonical encoding of a whole transaction, as hashed into a block.
pub open spec fn tx_bytes(t: TransactionView) -> Seq<u8> {
    payload_bytes(t.sender, t.recipient, t.amount) + chunk_bytes(t.public_key)
        + chunk_bytes(t.signature)
}

/// A transaction the ledger can hold: its amount is within the fixed cap.
pub open spec fn tx_wf(t: TransactionView) -> bool {
    t.amount <= AMOUNT_LIMIT
}

/// Validity of a transaction, independent of any ledger: the amount is within
/// the cap, the sender address is derived from the embedded public key, and
/// the signature over the payload verifies under that key.
pub open spec fn tx_valid(t: TransactionView) -> bool {
    &&& tx_wf(t)
    &&& t.sender == address_of(t.public_key)
    &&& crypto::signature_checks(
        t.public_key,
        payload_bytes(t.sender, t.recipient, t.amount),
        t.signature,
    )
}

/// Builds the transfer payload that is signed and verified.
pub fn payload(sender: &Vec<u8>, recipient: &Vec<u8>, amount: u64) -> (r: Vec<u8>)
    ensures
        r@ == payload_bytes(sender@, recipient@, amount),
{
    let mut out: Vec<u8> = Vec::new();
    append_chunk(&mut out, sender);
    append_chunk(&mut out, recipient);
    append_u64(&mut out, amount);
    assert(out@ =~= payload_bytes(sender@, recipient@, amount));
    out
}

impl Clone for Transaction {
    /// A field-for-field copy; the model is unchanged.
    fn clone(&self) -> (r: Self)
        ensures
            r@ == self@,
    {
        Transaction {
            sender: crate::codec::copy_bytes(&self.sender),
            recipient: crate::codec::copy_bytes(&self.recipient),
            amount: self.amount,
            public_key: crate::codec::copy_bytes(&self.public_key),
            signature: crate::codec::copy_bytes(&self.signature),
        }
    }
}

impl Transaction {
    /// The canonical encoding of this transaction.
    pub fn encoded(&self) -> (r: Vec<u8>)
        ensures
            r@ == tx_bytes(self@),
    {
        let mut out = payload(&self.sender, &self.recipient, self.amount);
        append_chunk(&mut out, &self.public_key);
        append_chunk(&mut out, &self.signature);
        assert(out@ =~= tx_bytes(self@));
        out
    }
}

/// The models of a sequence of transactions.
pub open spec fn tx_views(s: Seq<Transaction>) -> Seq<TransactionView> {
    s.map_values(|t: Transaction| t@)
}

/// A fresh vector holding copies of the given transactions, with the same models.
pub fn clone_transactions(v: &Vec<Transaction>) -> (r: Vec<Transaction>)
    ensures
        tx_views(r@) == tx_views(v@),
{
    let mut out: Vec<Transaction> = Vec::new();
    let n = v.len();
    let mut i: usize = 0;
    while i < n
        invariant
            n == v@.len(),
            i <= n,
            out@.len() == i,
            tx_views(out@) == tx_views(v@).take(i as int),
        decreases n - i,
    {
        let ghost prev = out@;
        let copied = v[i].clone();
        assert(copied@ == v@[i as int]@);
        out.push(copied);
        assert(out@ == prev.push(copied));
        assert forall|j: int| 0 <= j < out@.len() implies tx_views(out@)[j] == tx_views(v@).take(
            i + 1 as int,
        )[j] by {
            assert(tx_views(out@)[j] == out@[j]@);
            if j < i {
                assert(out@[j] == prev[j]);
                assert(tx_views(prev)[j] == prev[j]@);
            }
        }
        assert(tx_views(out@) =~= tx_views(v@).take(i + 1 as int));
        i = i + 1;
    }
    assert(tx_views(v@).take(n as int) =~= tx_views(v@));
    out
}

/// Checks a transaction's validity: recomputes the sender address from the
/// embedded public key and verifies the signature over the transfer payload.
pub fn verify(tx: &Transaction) -> (r: bool)
    ensures
        r == tx_valid(tx@),
{
    if tx.amount > AMOUNT_LIMIT {
        return false;
    }
    let derived = crypto::sha256(&tx.public_key);
    if !bytes_eq(&derived, &tx.sender) {
        return false;
    }
    let msg = payload(&tx.sender, &tx.recipient, tx.amount);
    crypto::verify_bytes(&tx.public_key, &msg, &tx.signature)
}

} // verus!
