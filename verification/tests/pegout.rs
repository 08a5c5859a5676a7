//! The peg-out pipeline: construction, validation, signature
//! aggregation across epochs, finalization, broadcast bytes and
//! change recognition.

use bitcoin::hashes::Hash as _;
use bitcoin::secp256k1::{PublicKey, Secp256k1, SecretKey};
use fedimint_wallet::config::WalletConfig;
use fedimint_wallet::db::WalletDb;
use fedimint_wallet::psbt::clone_psbt;
use fedimint_wallet::stateless::StatelessWallet;
use fedimint_wallet::types::{Address, AddressType, BitcoinOutPoint, Feerate, Network, OutPoint, PeerId};
use fedimint_wallet::wallet::{is_address_valid_for_network, Wallet};
use fedimint_wallet::{
    PegOut, PegOutFees, PegOutSignatureItem, ProcessPegOutSigError, RoundConsensus, SpendableUTXO,
    WalletConsensusItem, WalletError,
};

fn secret(fill: u8) -> [u8; 32] {
    let mut sk = [fill; 32];
    sk[0] = 1;
    sk
}

/// A federation of `n` peers with the given signing threshold; the
/// returned wallets share one consensus configuration.
fn federation(n: u16, threshold: usize) -> Vec<Wallet> {
    let secp = Secp256k1::new();
    let mut keys: Vec<(PeerId, [u8; 33])> = Vec::new();
    let mut sks: Vec<[u8; 32]> = Vec::new();
    for id in 0..n {
        let sk_bytes = secret(20 + id as u8);
        let sk = SecretKey::from_slice(&sk_bytes).unwrap();
        keys.push((PeerId { id }, PublicKey::from_secret_key(&secp, &sk).serialize()));
        sks.push(sk_bytes);
    }
    (0..n)
        .map(|id| {
            Wallet::new(WalletConfig::new(
                keys.clone(),
                PeerId { id },
                sks[id as usize],
                threshold,
                Network::Regtest,
                10,
            ))
        })
        .collect()
}

fn regtest_p2wpkh_address() -> Address {
    // A 22-byte v0 witness program script.
    let mut script = vec![0x00u8, 0x14];
    script.extend_from_slice(&[0x11u8; 20]);
    Address { network: Network::Regtest, address_type: Some(AddressType::P2wpkh), script_pubkey: script }
}

fn funded_db(beacon: [u8; 32]) -> WalletDb {
    let mut db = WalletDb::new();
    db.round_consensus = Some(RoundConsensus {
        block_height: 100,
        fee_rate: Feerate { sats_per_kvb: 1000 },
        randomness_beacon: beacon,
    });
    db.utxos.push((
        BitcoinOutPoint { txid: [0xaau8; 32], vout: 0 },
        SpendableUTXO { tweak: [0xaau8; 32], amount: 200_000 },
    ));
    db.utxos.push((
        BitcoinOutPoint { txid: [0xbbu8; 32], vout: 1 },
        SpendableUTXO { tweak: [0xbbu8; 32], amount: 500_000 },
    ));
    db
}

fn peg_out(amount: u64, rate: u64) -> PegOut {
    PegOut {
        recipient: regtest_p2wpkh_address(),
        amount,
        fees: PegOutFees { fee_rate: Feerate { sats_per_kvb: rate }, total_weight: 800 },
    }
}

#[test]
fn peg_out_construction_spends_what_it_needs() {
    let wallets = federation(1, 1);
    let wallet = &wallets[0];
    let db = funded_db([0x01u8; 32]);

    // 600_000 needs both UTXOs, largest first.
    let unsigned = wallet.create_peg_out_tx(&db, &peg_out(600_000, 1000)).unwrap();
    assert_eq!(unsigned.psbt.unsigned_tx.inputs.len(), 2);
    assert_eq!(unsigned.psbt.unsigned_tx.inputs[0].prev_txid, [0xbbu8; 32]);
    assert_eq!(unsigned.psbt.unsigned_tx.inputs[1].prev_txid, [0xaau8; 32]);
    assert_eq!(unsigned.psbt.unsigned_tx.outputs.len(), 2);
    assert_eq!(unsigned.psbt.unsigned_tx.outputs[0].value, 600_000);
    assert_eq!(
        unsigned.psbt.unsigned_tx.outputs[0].script_pubkey,
        regtest_p2wpkh_address().script_pubkey
    );
    let fees = unsigned.fees.fee_rate.calculate_fee(unsigned.fees.total_weight);
    assert_eq!(unsigned.fees.fee_rate.sats_per_kvb, 1000);
    assert_eq!(unsigned.change, 700_000 - 600_000 - fees);
    assert_eq!(unsigned.psbt.unsigned_tx.outputs[1].value, unsigned.change);
    // The change output pays the descriptor tweaked by the beacon.
    let change_script = wallet
        .cfg
        .consensus
        .peg_in_descriptor
        .tweaked_script_pubkey(&[0x01u8; 32])
        .unwrap();
    assert_eq!(unsigned.psbt.unsigned_tx.outputs[1].script_pubkey, change_script);
    // Exactly the change output carries the proprietary tweak entry.
    assert_eq!(unsigned.psbt.outputs.len(), 2);
    assert_eq!(unsigned.psbt.outputs[0].tweak, None);
    assert_eq!(unsigned.psbt.outputs[1].tweak, Some(vec![0x01u8; 32]));
    // Each input carries its UTXO's tweak.
    assert_eq!(unsigned.psbt.inputs[0].tweak, [0xbbu8; 32]);
    assert_eq!(unsigned.psbt.inputs[1].tweak, [0xaau8; 32]);

    // 300_000 is covered by the largest UTXO alone.
    let unsigned = wallet.create_peg_out_tx(&db, &peg_out(300_000, 1000)).unwrap();
    assert_eq!(unsigned.psbt.unsigned_tx.inputs.len(), 1);
    assert_eq!(unsigned.psbt.unsigned_tx.inputs[0].prev_txid, [0xbbu8; 32]);
}

#[test]
fn coin_selection_on_the_exact_boundary_leaves_dust_change() {
    let wallets = federation(1, 1);
    let wallet = &wallets[0];
    let mut db = WalletDb::new();
    db.round_consensus = Some(RoundConsensus {
        block_height: 100,
        fee_rate: Feerate { sats_per_kvb: 1000 },
        randomness_beacon: [0x01u8; 32],
    });

    // Recompute the builder's weight accounting independently.
    let pk = PublicKey::from_slice(&wallet.cfg.consensus.peg_in_descriptor.keys[0]).unwrap();
    let descriptor = miniscript::Descriptor::new_wsh_sortedmulti(
        1,
        vec![bitcoin::PublicKey { compressed: true, inner: pk }],
    )
    .unwrap();
    let max_sat_weight = descriptor.max_satisfaction_weight().unwrap() as u64;
    let change_script = wallet
        .cfg
        .consensus
        .peg_in_descriptor
        .tweaked_script_pubkey(&[0x01u8; 32])
        .unwrap();
    let dust = bitcoin::Script::from(change_script.clone()).dust_value().to_sat();
    let destination = regtest_p2wpkh_address().script_pubkey;
    let base_weight: u64 = 16 + 12 + 12 + (destination.len() as u64 * 4 + 1 + 32 + 1
        + change_script.len() as u64 * 4 + 32) + 16;
    let input_weight = max_sat_weight + 128 + 16 + 16;
    let rate = Feerate { sats_per_kvb: 1000 };
    let fees = rate.calculate_fee(base_weight + input_weight);

    let amount = 100_000u64;
    db.utxos.push((
        BitcoinOutPoint { txid: [0xccu8; 32], vout: 0 },
        SpendableUTXO { tweak: [0xccu8; 32], amount: amount + dust + fees },
    ));

    let unsigned = wallet.create_peg_out_tx(&db, &peg_out(amount, 1000)).unwrap();
    assert_eq!(unsigned.psbt.unsigned_tx.inputs.len(), 1);
    assert_eq!(unsigned.change, dust);

    // One satoshi less and the UTXOs no longer suffice.
    db.utxos[0].1.amount -= 1;
    assert!(wallet.create_peg_out_tx(&db, &peg_out(amount, 1000)).is_none());
}

#[test]
fn address_network_rules_follow_the_testnet_exceptions() {
    let p2sh_testnet = Address {
        network: Network::Testnet,
        address_type: Some(AddressType::P2sh),
        script_pubkey: vec![0xa9u8, 0x14],
    };
    assert!(is_address_valid_for_network(&p2sh_testnet, Network::Testnet));
    assert!(is_address_valid_for_network(&p2sh_testnet, Network::Regtest));
    assert!(is_address_valid_for_network(&p2sh_testnet, Network::Signet));
    assert!(!is_address_valid_for_network(&p2sh_testnet, Network::Bitcoin));

    let bech_testnet = Address {
        network: Network::Testnet,
        address_type: Some(AddressType::P2wpkh),
        script_pubkey: vec![0x00u8, 0x14],
    };
    assert!(is_address_valid_for_network(&bech_testnet, Network::Testnet));
    assert!(is_address_valid_for_network(&bech_testnet, Network::Signet));
    assert!(!is_address_valid_for_network(&bech_testnet, Network::Regtest));

    let mainnet = Address {
        network: Network::Bitcoin,
        address_type: Some(AddressType::P2wpkh),
        script_pubkey: vec![0x00u8, 0x14],
    };
    assert!(is_address_valid_for_network(&mainnet, Network::Bitcoin));
    assert!(!is_address_valid_for_network(&mainnet, Network::Regtest));
}

#[test]
fn validate_output_rejects_each_bad_request() {
    let wallets = federation(1, 1);
    let wallet = &wallets[0];
    let db = funded_db([0x01u8; 32]);

    // Wrong network.
    let mut wrong_net = peg_out(100_000, 1000);
    wrong_net.recipient.network = Network::Bitcoin;
    assert_eq!(
        wallet.validate_output(&db, &wrong_net),
        Err(WalletError::WrongNetwork(Network::Regtest, Network::Bitcoin))
    );

    // Fee rate below the consensus floor.
    let cheap = peg_out(100_000, 999);
    assert_eq!(
        wallet.validate_output(&db, &cheap),
        Err(WalletError::PegOutFeeRate(
            Feerate { sats_per_kvb: 999 },
            Feerate { sats_per_kvb: 1000 }
        ))
    );

    // More than the UTXOs can cover.
    let too_much = peg_out(5_000_000, 1000);
    assert_eq!(
        wallet.validate_output(&db, &too_much),
        Err(WalletError::NotEnoughSpendableUTXO)
    );

    // A sound request is accepted and priced.
    let good = peg_out(100_000, 1000);
    let meta = wallet.validate_output(&db, &good).unwrap();
    let expected = 100_000 + good.fees.fee_rate.calculate_fee(good.fees.total_weight);
    assert_eq!(meta.amount.msats, expected * 1000);
}

#[test]
fn signature_aggregation_drops_bad_peers_then_finalizes() {
    let wallets = federation(3, 3);
    let wallet0 = &wallets[0];
    let mut db = funded_db([0x01u8; 32]);
    let request = peg_out(600_000, 1000);
    let consensus_peers = vec![PeerId { id: 0 }, PeerId { id: 1 }, PeerId { id: 2 }];

    wallet0
        .apply_output(&mut db, &request, OutPoint { txid: [5u8; 32], out_idx: 0 })
        .unwrap();
    assert_eq!(db.utxos.len(), 0, "the spent UTXOs are reserved immediately");
    assert_eq!(db.unsigned_transactions.len(), 1);
    let txid = db.unsigned_transactions[0].0;
    assert_eq!(db.peg_out_signature_items.len(), 1);
    assert_eq!(
        wallet0.output_status(&db, OutPoint { txid: [5u8; 32], out_idx: 0 }).unwrap().0,
        txid
    );

    // Each peer signs its own copy and publishes a signature item.
    let items: Vec<PegOutSignatureItem> = wallets
        .iter()
        .map(|w| {
            let mut copy = clone_psbt(&db.unsigned_transactions[0].1.psbt);
            let signer = StatelessWallet {
                descriptor: w.cfg.consensus.peg_in_descriptor.clone(),
                secret_key: w.cfg.private.peg_in_key,
            };
            assert!(signer.sign_psbt(&mut copy));
            PegOutSignatureItem {
                txid,
                signature: copy.inputs.iter().map(|i| i.partial_sigs[0].1).collect(),
            }
        })
        .collect();

    // Start from an empty signature list so the epochs below control
    // exactly what was delivered.
    db.unsigned_transactions[0].1.signatures = Vec::new();

    // Epoch one: peer 0's signature for input 1 is corrupted.
    let mut corrupted = items[0].clone();
    corrupted.signature[1][5] ^= 0xff;
    let epoch_one = vec![
        (PeerId { id: 0 }, WalletConsensusItem::PegOutSignature(corrupted.clone())),
        (PeerId { id: 1 }, WalletConsensusItem::PegOutSignature(items[1].clone())),
        (PeerId { id: 2 }, WalletConsensusItem::PegOutSignature(items[2].clone())),
        (
            PeerId { id: 0 },
            WalletConsensusItem::RoundConsensus(fedimint_wallet::RoundConsensusItem {
                block_height: 100,
                fee_rate: Feerate { sats_per_kvb: 1000 },
                randomness: [0u8; 32],
            }),
        ),
    ];
    wallet0.begin_consensus_epoch(&mut db, epoch_one).unwrap();
    let drops = wallet0.end_consensus_epoch(&consensus_peers, &mut db);
    assert_eq!(drops, vec![PeerId { id: 0 }]);
    assert_eq!(db.unsigned_transactions.len(), 1, "two valid signatures are not enough of three");
    assert_eq!(db.pending_transactions.len(), 0);

    // Epoch two: peer 0 resubmits a correct item; the transaction
    // finalizes and moves to the pending table.
    let epoch_two = vec![
        (PeerId { id: 0 }, WalletConsensusItem::PegOutSignature(items[0].clone())),
        (
            PeerId { id: 1 },
            WalletConsensusItem::RoundConsensus(fedimint_wallet::RoundConsensusItem {
                block_height: 100,
                fee_rate: Feerate { sats_per_kvb: 1000 },
                randomness: [0u8; 32],
            }),
        ),
    ];
    wallet0.begin_consensus_epoch(&mut db, epoch_two).unwrap();
    let drops = wallet0.end_consensus_epoch(&consensus_peers, &mut db);
    assert_eq!(drops, Vec::<PeerId>::new());
    assert_eq!(db.unsigned_transactions.len(), 0);
    assert_eq!(db.peg_out_signature_items.len(), 0);
    assert_eq!(db.pending_transactions.len(), 1);
    assert_eq!(db.pending_transactions[0].0, txid);

    // The broadcast bytes re-parse to a transaction with the same
    // txid.
    let raw = wallet0.broadcast_pending_tx(&db);
    assert_eq!(raw.len(), 1);
    let parsed: bitcoin::Transaction = bitcoin::consensus::encode::deserialize(&raw[0]).unwrap();
    assert_eq!(parsed.txid().into_inner(), txid);

    // Change recognition: a block holding the transaction brings the
    // change back as a spendable UTXO at the change output's index.
    let pending = fedimint_wallet::clone_pending_transaction(&db.pending_transactions[0].1);
    let change = pending.change;
    wallet0.process_block(&mut db, [9u8; 32], &vec![pending.tx.clone()]);
    assert_eq!(db.utxos.len(), 1);
    assert_eq!(db.utxos[0].0, BitcoinOutPoint { txid, vout: 1 });
    assert_eq!(db.utxos[0].1.tweak, [0x01u8; 32]);
    assert_eq!(db.utxos[0].1.amount, change);
    assert_eq!(db.pending_transactions.len(), 1, "the pending record is retained");
    // Accepting the same block again changes nothing.
    let hashes = db.block_hashes.len();
    wallet0.process_block(&mut db, [9u8; 32], &vec![pending.tx.clone()]);
    assert_eq!(db.block_hashes.len(), hashes);
    assert_eq!(db.utxos.len(), 1);
}

#[test]
fn per_peer_signature_failures_are_reported_exactly() {
    let wallets = federation(2, 2);
    let wallet0 = &wallets[0];
    let mut db = funded_db([0x01u8; 32]);
    let request = peg_out(600_000, 1000);
    wallet0
        .apply_output(&mut db, &request, OutPoint { txid: [5u8; 32], out_idx: 0 })
        .unwrap();
    let txid = db.unsigned_transactions[0].0;
    let mut psbt = clone_psbt(&db.unsigned_transactions[0].1.psbt);

    // Wrong signature count.
    let short = PegOutSignatureItem { txid, signature: vec![[1u8; 64]] };
    assert_eq!(
        wallet0.sign_peg_out_psbt(&mut psbt, PeerId { id: 1 }, &short),
        Err(ProcessPegOutSigError::WrongSignatureCount(2, 1))
    );

    // Garbage signatures.
    let garbage = PegOutSignatureItem { txid, signature: vec![[1u8; 64], [2u8; 64]] };
    assert_eq!(
        wallet0.sign_peg_out_psbt(&mut psbt, PeerId { id: 1 }, &garbage),
        Err(ProcessPegOutSigError::InvalidSignature)
    );

    // A valid item is accepted once and a duplicate rejected.
    let signer = StatelessWallet {
        descriptor: wallets[1].cfg.consensus.peg_in_descriptor.clone(),
        secret_key: wallets[1].cfg.private.peg_in_key,
    };
    let mut copy = clone_psbt(&db.unsigned_transactions[0].1.psbt);
    assert!(signer.sign_psbt(&mut copy));
    let item = PegOutSignatureItem {
        txid,
        signature: copy.inputs.iter().map(|i| i.partial_sigs[0].1).collect(),
    };
    assert_eq!(wallet0.sign_peg_out_psbt(&mut psbt, PeerId { id: 1 }, &item), Ok(()));
    assert_eq!(
        wallet0.sign_peg_out_psbt(&mut psbt, PeerId { id: 1 }, &item),
        Err(ProcessPegOutSigError::DuplicateSignature)
    );
}

#[test]
fn finalize_reports_missing_tweak_and_failing_finalization() {
    let wallets = federation(1, 1);
    let wallet = &wallets[0];
    let db = funded_db([0x01u8; 32]);
    let unsigned = wallet.create_peg_out_tx(&db, &peg_out(100_000, 1000)).unwrap();

    // Unsigned inputs cannot be finalized.
    assert_eq!(
        wallet.finalize_peg_out_psbt(&unsigned.psbt, unsigned.change),
        Err(ProcessPegOutSigError::ErrorFinalizingPsbt)
    );

    // A PSBT with no tweak entry cannot name its change.
    let mut no_tweak = clone_psbt(&unsigned.psbt);
    no_tweak.outputs[1].tweak = None;
    assert_eq!(
        wallet.finalize_peg_out_psbt(&no_tweak, unsigned.change),
        Err(ProcessPegOutSigError::MissingOrMalformedChangeTweak)
    );

    // A malformed (short) tweak entry is rejected the same way.
    let mut short_tweak = clone_psbt(&unsigned.psbt);
    short_tweak.outputs[1].tweak = Some(vec![1u8; 31]);
    assert_eq!(
        wallet.finalize_peg_out_psbt(&short_tweak, unsigned.change),
        Err(ProcessPegOutSigError::MissingOrMalformedChangeTweak)
    );
}

#[test]
fn peg_out_fees_endpoint_prices_requests() {
    let wallets = federation(1, 1);
    let wallet = &wallets[0];
    let db = funded_db([0x01u8; 32]);

    let fees = wallet.peg_out_fees(&db, &regtest_p2wpkh_address(), 100_000).unwrap();
    assert_eq!(fees.fee_rate.sats_per_kvb, 1000);
    assert!(fees.total_weight > 0);
    assert!(wallet.peg_out_fees(&db, &regtest_p2wpkh_address(), 5_000_000).is_none());
}
