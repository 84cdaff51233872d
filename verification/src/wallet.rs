//! Wallets: a P-256 keypair plus the address derived from the public key.

use crate::codec::{bytes_eq, copy_bytes};
use crate::crypto;
use crate::transaction::{
    address_of, payload, payload_bytes, tx_valid, Transaction, TransactionView,
};
use crate::AMOUNT_LIMIT;
use vstd::prelude::*;

verus! {

/// Why a wallet operation was refused.
#[derive(Clone, Copy, Debug, PartialEq, Eq, Structural)]
pub enum WalletError {
    /// The supplied key material does not form a keypair.
    InvalidKeyMaterial,
    /// The supplied address is not the one derived from the public key.
    AddressMismatch,
    /// The transfer amount is negative or above the fixed cap.
    InvalidAmount,
    /// The signer refused the key material.
    KeyFailure,
}

/// A keypair and its address.  The secret key never leaves the wallet except
/// through [`Wallet::export`].
pub struct Wallet {
    secret: Vec<u8>,
    public: Vec<u8>,
    address: Vec<u8>,
}

/// The mathematical model of a wallet.
#[verifier::ext_equal]
pub ghost struct WalletView {
    pub secret: Seq<u8>,
    pub public: Seq<u8>,
    pub address: Seq<u8>,
}

impl View for Wallet {
    type V = WalletView;

    closed spec fn view(&self) -> WalletView {
        WalletView { secret: self.secret@, public: self.public@, address: self.address@ }
    }
}

impl WalletView {
    /// A consistent wallet: the secret parses, the public key is the one
    /// derived from the secret, and the address is the digest of the public key.
    pub open spec fn wf(self) -> bool {
        &&& crypto::secret_key_ok(self.secret)
        &&& self.public == crypto::public_key_of(self.secret)
        &&& self.address == address_of(self.public)
    }
}

/// The key triple `(public, secret, address)` rebuilds a wallet exactly when
/// it is consistent in the sense of [`WalletView::wf`].
pub open spec fn reconstruct_ok(public: Seq<u8>, secret: Seq<u8>, address: Seq<u8>) -> bool {
    WalletView { secret, public, address }.wf()
}

/// The transaction a wallet produces for a transfer: fully determined by the
/// wallet, the recipient and the amount, since the signature is deterministic.
pub open spec fn signed_tx(w: WalletView, recipient: Seq<u8>, amount: u64) -> TransactionView {
    TransactionView {
        sender: w.address,
        recipient,
        amount,
        public_key: w.public,
        signature: crypto::signature_of(w.secret, payload_bytes(w.address, recipient, amount)),
    }
}

impl Wallet {
    /// Generates a fresh keypair and derives its address.
    pub fn create() -> (w: Wallet)
        ensures
            w@.wf(),
    {
        let (secret, public) = crypto::generate_keypair();
        let address = crypto::sha256(&public);
        Wallet { secret, public, address }
    }

    /// Rebuilds a wallet from exported key material.  The keys must form a
    /// keypair and the address must be the one derived from the public key.
    pub fn reconstruct(public: &Vec<u8>, secret: &Vec<u8>, address: &Vec<u8>) -> (r: Result<
        Wallet,
        WalletError,
    >)
        ensures
            r is Ok <==> reconstruct_ok(public@, secret@, address@),
            r matches Ok(w) ==> w@ == (WalletView {
                secret: secret@,
                public: public@,
                address: address@,
            }),
            r == Err::<Wallet, WalletError>(WalletError::InvalidKeyMaterial) <==> !(
            crypto::secret_key_ok(secret@) && public@ == crypto::public_key_of(secret@)),
            r == Err::<Wallet, WalletError>(WalletError::AddressMismatch) <==> (
            crypto::secret_key_ok(secret@) && public@ == crypto::public_key_of(secret@)
                && address@ != address_of(public@)),
    {
        let derived_public = match crypto::derive_public_key(secret) {
            Some(p) => p,
            None => {
                return Err(WalletError::InvalidKeyMaterial);
            },
        };
        if !bytes_eq(&derived_public, public) {
            return Err(WalletError::InvalidKeyMaterial);
        }
        let derived_address = crypto::sha256(public);
        if !bytes_eq(&derived_address, address) {
            return Err(WalletError::AddressMismatch);
        }
        Ok(Wallet {
            secret: copy_bytes(secret),
            public: copy_bytes(public),
            address: copy_bytes(address),
        })
    }

    /// The wallet's address.
    pub fn get_address(&self) -> (r: Vec<u8>)
        ensures
            r@ == self@.address,
    {
        copy_bytes(&self.address)
    }

    /// The key triple `(public key, secret key, address)`, for display or
    /// transport.  This is the only operation that exposes the secret key.
    pub fn export(&self) -> (r: (Vec<u8>, Vec<u8>, Vec<u8>))
        ensures
            r.0@ == self@.public,
            r.1@ == self@.secret,
            r.2@ == self@.address,
    {
        (copy_bytes(&self.public), copy_bytes(&self.secret), copy_bytes(&self.address))
    }

    /// Signs a transfer of `amount` from this wallet to `recipient`.
    ///
    /// Rejects a negative amount and one above the fixed cap with
    /// `InvalidAmount`; succeeds exactly when the amount is in range and the
    /// deterministic signer accepts the payload, failing with `KeyFailure`
    /// otherwise.  On success the result is exactly the deterministic signed
    /// transaction of this wallet, and it is valid: `verify` accepts it.
    pub fn sign_transfer(&self, recipient: &Vec<u8>, amount: i64) -> (r: Result<
        Transaction,
        WalletError,
    >)
        requires
            self@.wf(),
        ensures
            (amount < 0 || amount > AMOUNT_LIMIT as i64) <==> r == Err::<
                Transaction,
                WalletError,
            >(WalletError::InvalidAmount),
            (r is Ok) <==> (0 <= amount <= AMOUNT_LIMIT as i64 && crypto::sign_ok(
                self@.secret,
                payload_bytes(self@.address, recipient@, amount as u64),
            )),
            (0 <= amount <= AMOUNT_LIMIT as i64 && !crypto::sign_ok(
                self@.secret,
                payload_bytes(self@.address, recipient@, amount as u64),
            )) <==> r == Err::<Transaction, WalletError>(WalletError::KeyFailure),
            r matches Ok(tx) ==> tx@ == signed_tx(self@, recipient@, amount as u64),
            r matches Ok(tx) ==> tx_valid(tx@),
    {
        if amount < 0 || amount > AMOUNT_LIMIT as i64 {
            return Err(WalletError::InvalidAmount);
        }
        let amount_u = amount as u64;
        let msg = payload(&self.address, recipient, amount_u);
        let signature = match crypto::sign_bytes(&self.secret, &msg) {
            Some(s) => s,
            None => {
                return Err(WalletError::KeyFailure);
            },
        };
        let tx = Transaction {
            sender: copy_bytes(&self.address),
            recipient: copy_bytes(recipient),
            amount: amount_u,
            public_key: copy_bytes(&self.public),
            signature,
        };
        assert(tx@ =~= signed_tx(self@, recipient@, amount_u));
        Ok(tx)
    }
}

/// Every consistent wallet's exported key triple rebuilds the very same
/// wallet: `reconstruct` accepts it, and the wallet it yields has the same
/// secret, public key and address, so it signs and verifies transfers
/// identically.
pub proof fn lemma_export_reconstructs(w: WalletView)
    requires
        w.wf(),
    ensures
        reconstruct_ok(w.public, w.secret, w.address),
        (WalletView { secret: w.secret, public: w.public, address: w.address }) == w,
{
}

} // verus!
