//! Peg-in validation: the happy path, double-claim protection, and
//! the tweak derivation it rests on.

use bitcoin::hashes::Hash as _;
use bitcoin::hashes::HashEngine as _;
use bitcoin::hashes::{sha256, Hmac, HmacEngine};
use bitcoin::secp256k1::{PublicKey, Scalar, Secp256k1, SecretKey};
use fedimint_wallet::config::WalletConfig;
use fedimint_wallet::db::WalletDb;
use fedimint_wallet::keys::{tweak_public_key, tweak_secret_key};
use fedimint_wallet::tx::{TxData, TxInData, TxOutData};
use fedimint_wallet::txoproof::{BlockHeaderData, PegInProof, TxOutProof};
use fedimint_wallet::types::{Network, PeerId};
use fedimint_wallet::wallet::Wallet;
use fedimint_wallet::{WalletError, WalletInput};

fn test_secret_key(fill: u8) -> [u8; 32] {
    let mut sk = [fill; 32];
    sk[0] = 1;
    sk
}

fn single_peer_wallet() -> Wallet {
    let secp = Secp256k1::new();
    let sk_bytes = test_secret_key(7);
    let sk = SecretKey::from_slice(&sk_bytes).unwrap();
    let pk = PublicKey::from_secret_key(&secp, &sk).serialize();
    let cfg = WalletConfig::new(
        vec![(PeerId { id: 0 }, pk)],
        PeerId { id: 0 },
        sk_bytes,
        1,
        Network::Regtest,
        10,
    );
    Wallet::new(cfg)
}

/// Builds the bitcoin-crate twin of a modelled transaction.
fn to_bitcoin_tx(tx: &TxData) -> bitcoin::Transaction {
    bitcoin::Transaction {
        version: tx.version,
        lock_time: bitcoin::PackedLockTime(tx.lock_time),
        input: tx
            .inputs
            .iter()
            .map(|i| bitcoin::TxIn {
                previous_output: bitcoin::OutPoint {
                    txid: bitcoin::Txid::from_inner(i.prev_txid),
                    vout: i.prev_vout,
                },
                script_sig: bitcoin::Script::new(),
                sequence: bitcoin::Sequence(i.sequence),
                witness: bitcoin::Witness::new(),
            })
            .collect(),
        output: tx
            .outputs
            .iter()
            .map(|o| bitcoin::TxOut {
                value: o.value,
                script_pubkey: bitcoin::Script::from(o.script_pubkey.clone()),
            })
            .collect(),
    }
}

/// A single-transaction block and an SPV proof for it.
fn proof_for_tx(tx: &TxData, claim_key: [u8; 32]) -> (PegInProof, [u8; 32]) {
    let txid = to_bitcoin_tx(tx).txid();
    let merkle_proof =
        bitcoin::util::merkleblock::PartialMerkleTree::from_txids(&[txid], &[true]);
    let header = bitcoin::BlockHeader {
        version: 2,
        prev_blockhash: bitcoin::BlockHash::from_inner([3u8; 32]),
        merkle_root: bitcoin::TxMerkleNode::from_inner(txid.into_inner()),
        time: 1_600_000_000,
        bits: 0x207fffff,
        nonce: 42,
    };
    let block_hash = header.block_hash().into_inner();
    let proof = PegInProof {
        txout_proof: TxOutProof {
            block_header: BlockHeaderData {
                version: header.version,
                prev_blockhash: header.prev_blockhash.into_inner(),
                merkle_root: header.merkle_root.into_inner(),
                time: header.time,
                bits: header.bits,
                nonce: header.nonce,
            },
            merkle_proof: bitcoin::consensus::encode::serialize(&merkle_proof),
        },
        transaction: tx.clone(),
        output_idx: 0,
        tweak_contract_key: claim_key,
    };
    (proof, block_hash)
}

fn deposit_tx(script: Vec<u8>, value: u64) -> TxData {
    TxData {
        version: 2,
        lock_time: 0,
        inputs: vec![TxInData { prev_txid: [0u8; 32], prev_vout: 0, sequence: 0xffffffff }],
        outputs: vec![TxOutData { value, script_pubkey: script }],
    }
}

#[test]
fn peg_in_happy_path_credits_once_and_only_once() {
    let wallet = single_peer_wallet();
    let mut db = WalletDb::new();

    let claim_key = [0x42u8; 32];
    let script = wallet
        .cfg
        .consensus
        .peg_in_descriptor
        .tweaked_script_pubkey(&claim_key)
        .unwrap();
    let tx = deposit_tx(script, 1_000_000);
    let (proof, block_hash) = proof_for_tx(&tx, claim_key);
    db.block_hashes.push(block_hash);

    let input = WalletInput(Box::new(proof));
    let meta = wallet.validate_input(&db, &input).unwrap();
    assert_eq!(meta.amount.amount.msats, 1_000_000_000);
    assert_eq!(meta.puk_keys, vec![claim_key]);

    let meta = wallet.apply_input(&mut db, &input).unwrap();
    assert_eq!(meta.amount.amount.msats, 1_000_000_000);
    assert_eq!(db.utxos.len(), 1);
    assert_eq!(db.utxos[0].1.tweak, claim_key);
    assert_eq!(db.utxos[0].1.amount, 1_000_000);

    // The same outpoint cannot be claimed twice.
    let second = wallet.validate_input(&db, &input);
    assert_eq!(second, Err(WalletError::PegInAlreadyClaimed));
    let second_apply = wallet.apply_input(&mut db, &input);
    assert_eq!(second_apply, Err(WalletError::PegInAlreadyClaimed));
    assert_eq!(db.utxos.len(), 1);
}

#[test]
fn peg_in_unknown_block_is_rejected() {
    let wallet = single_peer_wallet();
    let db = WalletDb::new();

    let claim_key = [0x42u8; 32];
    let script = wallet
        .cfg
        .consensus
        .peg_in_descriptor
        .tweaked_script_pubkey(&claim_key)
        .unwrap();
    let tx = deposit_tx(script, 50_000);
    let (proof, block_hash) = proof_for_tx(&tx, claim_key);

    let input = WalletInput(Box::new(proof));
    let result = wallet.validate_input(&db, &input);
    assert_eq!(result, Err(WalletError::UnknownPegInProofBlock(block_hash)));
}

#[test]
fn peg_in_wrong_script_is_rejected() {
    let wallet = single_peer_wallet();
    let mut db = WalletDb::new();

    // The transaction pays a script derived for a different key.
    let other_script = wallet
        .cfg
        .consensus
        .peg_in_descriptor
        .tweaked_script_pubkey(&[0x99u8; 32])
        .unwrap();
    let tx = deposit_tx(other_script, 50_000);
    let (proof, block_hash) = proof_for_tx(&tx, [0x42u8; 32]);
    db.block_hashes.push(block_hash);

    let input = WalletInput(Box::new(proof));
    let result = wallet.validate_input(&db, &input);
    match result {
        Err(WalletError::PegInProofError(_)) => (),
        other => panic!("expected a proof error, got {:?}", other),
    }
}

#[test]
fn peg_in_transaction_not_in_proof_is_rejected() {
    let wallet = single_peer_wallet();
    let mut db = WalletDb::new();

    let claim_key = [0x42u8; 32];
    let script = wallet
        .cfg
        .consensus
        .peg_in_descriptor
        .tweaked_script_pubkey(&claim_key)
        .unwrap();
    let tx = deposit_tx(script.clone(), 50_000);
    let (mut proof, block_hash) = proof_for_tx(&tx, claim_key);
    db.block_hashes.push(block_hash);

    // Swap in a different transaction: the merkle branch no longer
    // shows it.
    proof.transaction = deposit_tx(script, 60_000);
    let input = WalletInput(Box::new(proof));
    let result = wallet.validate_input(&db, &input);
    match result {
        Err(WalletError::PegInProofError(_)) => (),
        other => panic!("expected a proof error, got {:?}", other),
    }
}

#[test]
fn tweak_round_trips_through_matching_secret_key() {
    // Tweaking the secret key and tweaking the public key land on the
    // same point: untweaking recovers the starting pair.
    let secp = Secp256k1::new();
    let sk_bytes = test_secret_key(11);
    let sk = SecretKey::from_slice(&sk_bytes).unwrap();
    let pk_bytes = PublicKey::from_secret_key(&secp, &sk).serialize();
    let tweak = [0x5au8; 32];

    let tweaked_sk = tweak_secret_key(&sk_bytes, &pk_bytes, &tweak).unwrap();
    let tweaked_pk = tweak_public_key(&pk_bytes, &tweak).unwrap();

    let derived = PublicKey::from_secret_key(&secp, &SecretKey::from_slice(&tweaked_sk).unwrap());
    assert_eq!(derived.serialize(), tweaked_pk);
    // Distinct tweaks give distinct keys, so the tweak is recoverable
    // only with the matching secret.
    assert_ne!(tweaked_pk, pk_bytes);
}

#[test]
fn tweak_matches_direct_hmac_computation() {
    // The tweak scalar is HMAC-SHA256(pk.serialize(), tweak), computed
    // here independently of the library.
    let secp = Secp256k1::new();
    let sk_bytes = test_secret_key(13);
    let sk = SecretKey::from_slice(&sk_bytes).unwrap();
    let pk = PublicKey::from_secret_key(&secp, &sk);
    let tweak = [0x77u8; 32];

    let mut engine = HmacEngine::<sha256::Hash>::new(&pk.serialize()[..]);
    engine.input(&tweak);
    let scalar = Hmac::<sha256::Hash>::from_engine(engine).into_inner();
    let expected = pk
        .add_exp_tweak(&secp, &Scalar::from_be_bytes(scalar).unwrap())
        .unwrap()
        .serialize();

    assert_eq!(tweak_public_key(&pk.serialize(), &tweak).unwrap(), expected);
}

#[test]
fn derived_scripts_match_an_independent_descriptor_compile() {
    // The tweaked script pubkey equals what compiling the tweaked
    // descriptor with miniscript directly yields.
    let wallet = single_peer_wallet();
    let tweak = [0x21u8; 32];
    let library_script = wallet
        .cfg
        .consensus
        .peg_in_descriptor
        .tweaked_script_pubkey(&tweak)
        .unwrap();

    let tweaked_key = tweak_public_key(&wallet.cfg.consensus.peg_in_descriptor.keys[0], &tweak)
        .unwrap();
    let pk = PublicKey::from_slice(&tweaked_key).unwrap();
    let descriptor = miniscript::Descriptor::new_wsh_sortedmulti(
        1,
        vec![bitcoin::PublicKey { compressed: true, inner: pk }],
    )
    .unwrap();
    assert_eq!(library_script, descriptor.script_pubkey().to_bytes());
}
