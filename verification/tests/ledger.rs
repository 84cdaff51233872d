use blockchain::api::ApiServer;
use blockchain::block::DIFFICULTY;
use blockchain::ledger::{Ledger, LedgerError, MINING_REWARD};
use blockchain::transaction::{verify, Transaction};
use blockchain::wallet::{Wallet, WalletError};
use blockchain::AMOUNT_LIMIT;

fn same_tx(a: &Transaction, b: &Transaction) -> bool {
    a.sender == b.sender
        && a.recipient == b.recipient
        && a.amount == b.amount
        && a.public_key == b.public_key
        && a.signature == b.signature
}

#[test]
fn wallet_signed_transfer_verifies() {
    let w = Wallet::create();
    let recipient = vec![7u8; 32];
    let tx = w.sign_transfer(&recipient, 25).expect("non-negative amount must sign");
    assert!(verify(&tx));
    assert_eq!(tx.sender, w.get_address());
    assert_eq!(tx.recipient, recipient);
    assert_eq!(tx.amount, 25);
}

#[test]
fn sign_transfer_rejects_negative_amount() {
    let w = Wallet::create();
    let r = w.sign_transfer(&vec![1u8; 32], -1);
    assert_eq!(r.err(), Some(WalletError::InvalidAmount));
}

#[test]
fn sign_transfer_rejects_oversized_amount() {
    let w = Wallet::create();
    let r = w.sign_transfer(&vec![1u8; 32], AMOUNT_LIMIT as i64 + 1);
    assert_eq!(r.err(), Some(WalletError::InvalidAmount));
}

#[test]
fn sign_transfer_accepts_amount_at_cap() {
    let w = Wallet::create();
    let tx = w.sign_transfer(&vec![1u8; 32], AMOUNT_LIMIT as i64).expect("cap is allowed");
    assert!(verify(&tx));
}

#[test]
fn export_reconstruct_roundtrip() {
    let w = Wallet::create();
    let (public, secret, address) = w.export();
    let rebuilt = Wallet::reconstruct(&public, &secret, &address).expect("exported triple");
    assert_eq!(rebuilt.get_address(), w.get_address());

    let recipient = vec![9u8; 32];
    let tx1 = w.sign_transfer(&recipient, 5).unwrap();
    let tx2 = rebuilt.sign_transfer(&recipient, 5).unwrap();
    assert_eq!(tx1.signature, tx2.signature);
    assert!(verify(&tx1));
    assert!(verify(&tx2));
}

#[test]
fn reconstruct_rejects_malformed_secret() {
    let w = Wallet::create();
    let (public, _, address) = w.export();
    let bad_secret = vec![1u8, 2, 3];
    let r = Wallet::reconstruct(&public, &bad_secret, &address);
    assert_eq!(r.err(), Some(WalletError::InvalidKeyMaterial));
}

#[test]
fn reconstruct_rejects_foreign_public_key() {
    let w1 = Wallet::create();
    let w2 = Wallet::create();
    let (_, secret1, address1) = w1.export();
    let (public2, _, _) = w2.export();
    let r = Wallet::reconstruct(&public2, &secret1, &address1);
    assert_eq!(r.err(), Some(WalletError::InvalidKeyMaterial));
}

#[test]
fn reconstruct_rejects_wrong_address() {
    let w = Wallet::create();
    let (public, secret, mut address) = w.export();
    address[0] ^= 1;
    let r = Wallet::reconstruct(&public, &secret, &address);
    assert_eq!(r.err(), Some(WalletError::AddressMismatch));
}

#[test]
fn genesis_only_chain() {
    let miner = vec![3u8; 32];
    let l = Ledger::new(miner.clone());
    assert_eq!(l.balance_of(&miner), 0);
    assert_eq!(l.all_transactions().len(), 0);
    let blocks = l.blocks();
    assert_eq!(blocks.len(), 1);
    assert_eq!(blocks[0].index, 0);
    assert!(blocks[0].previous_hash.is_empty());
    assert_eq!(blocks[0].transactions.len(), 0);
    assert_eq!(l.miner_address(), miner);
}

#[test]
fn submit_and_mine_collects_all_pending() {
    let miner = vec![4u8; 32];
    let mut l = Ledger::new(miner.clone());
    let a = Wallet::create();
    let b = Wallet::create();
    let tx1 = a.sign_transfer(&b.get_address(), 10).unwrap();
    let tx2 = b.sign_transfer(&a.get_address(), 4).unwrap();
    l.submit(tx1.clone()).expect("valid transaction");
    l.submit(tx2.clone()).expect("valid transaction");
    assert_eq!(l.pending_transactions().len(), 2);

    l.mine().expect("mining succeeds");
    assert_eq!(l.pending_transactions().len(), 0);

    let all = l.all_transactions();
    assert_eq!(all.len(), 3);
    assert_eq!(all.iter().filter(|t| same_tx(t, &tx1)).count(), 1);
    assert_eq!(all.iter().filter(|t| same_tx(t, &tx2)).count(), 1);
    // the third is the reward transaction
    assert_eq!(all.iter().filter(|t| t.sender.is_empty()).count(), 1);
}

#[test]
fn reward_transaction_shape() {
    let miner = vec![5u8; 32];
    let mut l = Ledger::new(miner.clone());
    l.mine().expect("mining succeeds");
    let blocks = l.blocks();
    let sealed = &blocks[1];
    assert_eq!(sealed.transactions.len(), 1);
    let reward = &sealed.transactions[0];
    assert!(reward.sender.is_empty());
    assert_eq!(reward.recipient, miner);
    assert_eq!(reward.amount, MINING_REWARD);
}

#[test]
fn chain_linkage_and_proof_of_work() {
    let miner = vec![6u8; 32];
    let mut l = Ledger::new(miner);
    l.mine().expect("mining succeeds");
    l.mine().expect("mining succeeds");
    let blocks = l.blocks();
    assert_eq!(blocks.len(), 3);
    for i in 1..blocks.len() {
        assert_eq!(blocks[i].previous_hash, blocks[i - 1].hash);
        for j in 0..DIFFICULTY {
            assert_eq!(blocks[i].hash[j], 0);
        }
    }
    for (i, b) in blocks.iter().enumerate() {
        assert_eq!(b.index as usize, i);
        let recomputed = <sha2::Sha256 as sha2::Digest>::digest(&b.message_bytes()).to_vec();
        assert_eq!(recomputed, b.hash);
    }
}

#[test]
fn mining_reward_credits_miner() {
    let miner = vec![8u8; 32];
    let mut l = Ledger::new(miner.clone());
    assert_eq!(l.balance_of(&miner), 0);
    l.mine().expect("mining succeeds");
    assert_eq!(l.balance_of(&miner), MINING_REWARD as i128);
    l.mine().expect("mining succeeds");
    assert_eq!(l.balance_of(&miner), 2 * MINING_REWARD as i128);
}

#[test]
fn forged_signature_rejected() {
    let miner = vec![9u8; 32];
    let mut l = Ledger::new(miner);
    let a = Wallet::create();
    let mut tx = a.sign_transfer(&vec![2u8; 32], 10).unwrap();
    tx.signature[0] ^= 1;
    assert!(!verify(&tx));
    let r = l.submit(tx);
    assert_eq!(r.err(), Some(LedgerError::RejectedTransaction));
    assert_eq!(l.pending_transactions().len(), 0);
    l.mine().expect("mining succeeds");
    // the forged transaction never appears in the history
    let all = l.all_transactions();
    assert_eq!(all.len(), 1);
    assert!(all[0].sender.is_empty());
}

#[test]
fn transfer_scenario_moves_amounts() {
    let miner = vec![10u8; 32];
    let mut l = Ledger::new(miner.clone());
    let a = Wallet::create();
    let b = Wallet::create();
    let a_addr = a.get_address();
    let b_addr = b.get_address();
    let before = l.all_transactions().len();

    let tx = a.sign_transfer(&b_addr, 10).unwrap();
    l.submit(tx).expect("valid transaction");
    l.mine().expect("mining succeeds");

    assert_eq!(l.balance_of(&b_addr), 10);
    assert_eq!(l.balance_of(&a_addr), -10);
    assert_eq!(l.balance_of(&miner), MINING_REWARD as i128);
    assert_eq!(l.all_transactions().len(), before + 2);
}

#[test]
fn api_server_round_trip() {
    let server = ApiServer::new(5000);
    assert_eq!(server.port, 5000);

    let user = Wallet::create();
    let (public, secret, address) = user.export();
    let recipient = vec![11u8; 32];

    server
        .submit_transfer(&public, &secret, &address, &recipient, 42)
        .expect("consistent key material and amount");
    assert!(server.mine());

    assert_eq!(server.balance(&recipient), 42);
    assert_eq!(server.balance(&address), -42);

    let shown = server.show_transactions();
    assert_eq!(shown.transaction_count, 2);
    assert_eq!(shown.transactions.len(), 2);

    let blocks = server.blocks();
    assert_eq!(blocks.len(), 2);
    assert_eq!(blocks[1].previous_hash, blocks[0].hash);
}

#[test]
fn api_server_rejects_bad_transfer() {
    let server = ApiServer::new(5001);
    let user = Wallet::create();
    let (public, secret, address) = user.export();
    let recipient = vec![12u8; 32];

    let r = server.submit_transfer(&public, &secret, &address, &recipient, -5);
    assert_eq!(r.err(), Some(blockchain::api::TransferError::InvalidAmount));

    let mut wrong = address.clone();
    wrong[0] ^= 1;
    let r = server.submit_transfer(&public, &secret, &wrong, &recipient, 5);
    assert_eq!(r.err(), Some(blockchain::api::TransferError::AddressMismatch));

    let shown = server.show_transactions();
    assert_eq!(shown.transaction_count, 0);
}

#[test]
fn api_server_rejects_inconsistent_keys() {
    let server = ApiServer::new(5002);
    let w1 = Wallet::create();
    let w2 = Wallet::create();
    let (_, secret1, address1) = w1.export();
    let (public2, _, _) = w2.export();
    let recipient = vec![13u8; 32];

    let r = server.submit_transfer(&public2, &secret1, &address1, &recipient, 5);
    assert_eq!(r.err(), Some(blockchain::api::TransferError::InvalidKeyMaterial));

    let shown = server.show_transactions();
    assert_eq!(shown.transaction_count, 0);
}
