//! The round-consensus engine: medians, the randomness beacon, and
//! the epoch bookkeeping.

use bitcoin::secp256k1::{PublicKey, Secp256k1, SecretKey};
use fedimint_wallet::config::{peers_threshold, WalletConfig};
use fedimint_wallet::db::WalletDb;
use fedimint_wallet::sort::median_u64;
use fedimint_wallet::types::{Feerate, Network, PeerId};
use fedimint_wallet::wallet::{EpochError, Wallet};
use fedimint_wallet::{RoundConsensus, RoundConsensusItem, WalletConsensusItem};

fn test_wallet() -> Wallet {
    let secp = Secp256k1::new();
    let mut sk_bytes = [9u8; 32];
    sk_bytes[0] = 1;
    let sk = SecretKey::from_slice(&sk_bytes).unwrap();
    let pk = PublicKey::from_secret_key(&secp, &sk).serialize();
    let cfg = WalletConfig::new(
        vec![(PeerId { id: 0 }, pk)],
        PeerId { id: 0 },
        sk_bytes,
        1,
        Network::Regtest,
        10,
    );
    Wallet::new(cfg)
}

fn round_item(peer: u16, height: u32, fee: u64, randomness: [u8; 32]) -> (
    PeerId,
    WalletConsensusItem,
) {
    (
        PeerId { id: peer },
        WalletConsensusItem::RoundConsensus(RoundConsensusItem {
            block_height: height,
            fee_rate: Feerate { sats_per_kvb: fee },
            randomness,
        }),
    )
}

#[test]
fn median_over_even_count_picks_the_lower_middle() {
    assert_eq!(median_u64(&vec![4, 10]), 4);
    assert_eq!(median_u64(&vec![10, 4]), 4);
    assert_eq!(median_u64(&vec![1, 2, 3, 4]), 2);
    assert_eq!(median_u64(&vec![7]), 7);
    assert_eq!(median_u64(&vec![3, 1, 2]), 2);
}

#[test]
fn height_median_rule_accepts_and_rejects() {
    let wallet = test_wallet();
    let mut db = WalletDb::new();
    db.round_consensus = Some(RoundConsensus {
        block_height: 100,
        fee_rate: Feerate { sats_per_kvb: 1000 },
        randomness_beacon: [0u8; 32],
    });

    // Proposals [100, 102, 108, 110, 115] against consensus 100: the
    // median 108 is accepted.
    let items = vec![
        round_item(0, 100, 1000, [0u8; 32]),
        round_item(1, 102, 1000, [0u8; 32]),
        round_item(2, 108, 1000, [0u8; 32]),
        round_item(3, 110, 1000, [0u8; 32]),
        round_item(4, 115, 1000, [0u8; 32]),
    ];
    let rc = wallet.begin_consensus_epoch(&mut db, items).unwrap();
    assert_eq!(rc.block_height, 108);
    assert_eq!(db.round_consensus.unwrap().block_height, 108);

    // Next epoch proposals [105, 106, 107]: the median 106 is below
    // 108, which breaks the federation.
    let items = vec![
        round_item(0, 105, 1000, [0u8; 32]),
        round_item(1, 106, 1000, [0u8; 32]),
        round_item(2, 107, 1000, [0u8; 32]),
    ];
    let result = wallet.begin_consensus_epoch(&mut db, items);
    assert_eq!(result, Err(EpochError::BlockHeightShrunk(106, 108)));
    assert_eq!(db.round_consensus.unwrap().block_height, 108);
}

#[test]
fn empty_epoch_is_fatal() {
    let wallet = test_wallet();
    let mut db = WalletDb::new();
    let result = wallet.begin_consensus_epoch(&mut db, vec![]);
    assert_eq!(result, Err(EpochError::NoProposals));
}

#[test]
fn randomness_beacon_is_the_xor_of_contributions() {
    let wallet = test_wallet();
    let contributions = vec![[0x00u8; 32], [0xffu8; 32], [0xa5u8; 32], [0x5au8; 32], [0x00u8; 32]];
    let beacon = wallet.process_randomness_contributions(&contributions);
    assert_eq!(beacon, [0x00u8; 32]);

    let contributions = vec![[0x0fu8; 32], [0xf0u8; 32]];
    assert_eq!(wallet.process_randomness_contributions(&contributions), [0xffu8; 32]);

    // Reordering the contributions changes nothing.
    let a = vec![[1u8; 32], [2u8; 32], [4u8; 32]];
    let b = vec![[4u8; 32], [1u8; 32], [2u8; 32]];
    assert_eq!(
        wallet.process_randomness_contributions(&a),
        wallet.process_randomness_contributions(&b)
    );
}

#[test]
fn epoch_combines_fees_heights_and_randomness() {
    let wallet = test_wallet();
    let mut db = WalletDb::new();
    let items = vec![
        round_item(0, 50, 2000, [0x03u8; 32]),
        round_item(1, 60, 1000, [0x05u8; 32]),
        round_item(2, 70, 9000, [0x09u8; 32]),
    ];
    let rc = wallet.begin_consensus_epoch(&mut db, items).unwrap();
    assert_eq!(rc.block_height, 60);
    assert_eq!(rc.fee_rate.sats_per_kvb, 2000);
    assert_eq!(rc.randomness_beacon, [0x0fu8; 32]);
}

#[test]
fn consensus_proposal_repeats_pending_items_and_proposes_a_round() {
    let wallet = test_wallet();
    let mut db = WalletDb::new();
    db.peg_out_signature_items.push(([7u8; 32], vec![[1u8; 64]]));
    db.round_consensus = Some(RoundConsensus {
        block_height: 120,
        fee_rate: Feerate { sats_per_kvb: 1000 },
        randomness_beacon: [0u8; 32],
    });

    let items = wallet.consensus_proposal_with_randomness(
        &db,
        110,
        Some(Feerate { sats_per_kvb: 3000 }),
        [8u8; 32],
    );
    assert_eq!(items.len(), 2);
    match &items[0] {
        WalletConsensusItem::PegOutSignature(sig) => {
            assert_eq!(sig.txid, [7u8; 32]);
            assert_eq!(sig.signature, vec![[1u8; 64]]);
        }
        other => panic!("expected a signature item, got {:?}", other),
    }
    match &items[1] {
        WalletConsensusItem::RoundConsensus(rc) => {
            // The target height fell below consensus: the proposal
            // sticks to the consensus height.
            assert_eq!(rc.block_height, 120);
            assert_eq!(rc.fee_rate.sats_per_kvb, 3000);
            assert_eq!(rc.randomness, [8u8; 32]);
        }
        other => panic!("expected a round item, got {:?}", other),
    }
}

#[test]
fn target_height_applies_the_finality_delay() {
    let wallet = test_wallet();
    assert_eq!(wallet.target_height(110), 100);
    assert_eq!(wallet.target_height(5), 0);
    assert_eq!(wallet.target_height(10), 0);
    assert_eq!(wallet.target_height(11), 1);
}

#[test]
fn thresholds_follow_the_two_thirds_rule() {
    assert_eq!(peers_threshold(1), 1);
    assert_eq!(peers_threshold(3), 3);
    assert_eq!(peers_threshold(4), 3);
    assert_eq!(peers_threshold(7), 5);
}

#[test]
fn sync_accepts_each_block_once() {
    let wallet = test_wallet();
    let mut db = WalletDb::new();
    assert_eq!(wallet.blocks_to_fetch(None, 120), 10);
    assert_eq!(wallet.blocks_to_fetch(Some(100), 108), 8);
    assert_eq!(wallet.blocks_to_fetch(Some(108), 100), 0);

    let blocks: Vec<fedimint_wallet::wallet::BlockData> = (0..8u8)
        .map(|i| fedimint_wallet::wallet::BlockData { hash: [i; 32], txdata: Vec::new() })
        .collect();
    wallet.sync_up_to_consensus_height(&mut db, Some(100), 108, &blocks);
    assert_eq!(db.block_hashes.len(), 8);
    // Syncing the same stretch again adds nothing.
    wallet.sync_up_to_consensus_height(&mut db, Some(100), 108, &blocks);
    assert_eq!(db.block_hashes.len(), 8);
}

#[test]
fn signature_items_for_unknown_transactions_are_dropped() {
    let wallet = test_wallet();
    let mut db = WalletDb::new();
    let items = vec![
        (
            PeerId { id: 1 },
            WalletConsensusItem::PegOutSignature(fedimint_wallet::PegOutSignatureItem {
                txid: [0xeeu8; 32],
                signature: vec![[0u8; 64]],
            }),
        ),
        round_item(0, 5, 1000, [0u8; 32]),
    ];
    let rc = wallet.begin_consensus_epoch(&mut db, items).unwrap();
    assert_eq!(rc.block_height, 5);
    assert_eq!(db.unsigned_transactions.len(), 0);
}

#[test]
fn bring_up_checks_the_node_network() {
    let wallet = test_wallet();
    let cfg = wallet.cfg.clone();
    assert!(fedimint_wallet::wallet::Wallet::new_with_bitcoind(cfg.clone(), Network::Regtest).is_ok());
    assert_eq!(
        fedimint_wallet::wallet::Wallet::new_with_bitcoind(cfg, Network::Bitcoin).err(),
        Some(fedimint_wallet::WalletError::WrongNetwork(Network::Regtest, Network::Bitcoin))
    );
}

#[test]
fn sync_to_a_lower_height_changes_nothing() {
    let wallet = test_wallet();
    let mut db = WalletDb::new();
    db.block_hashes.push([7u8; 32]);
    // The follower never rewinds: a lower target needs no blocks and
    // leaves the state untouched.
    assert_eq!(wallet.blocks_to_fetch(Some(108), 100), 0);
    wallet.sync_up_to_consensus_height(&mut db, Some(108), 100, &Vec::new());
    assert_eq!(db.block_hashes, vec![[7u8; 32]]);
    assert_eq!(db.utxos.len(), 0);
}

#[test]
fn drawn_proposals_pin_everything_but_the_randomness() {
    let wallet = test_wallet();
    let mut db = WalletDb::new();
    db.peg_out_signature_items.push(([7u8; 32], vec![[1u8; 64]]));
    let items = wallet.consensus_proposal(&db, 55, None);
    assert_eq!(items.len(), 2);
    match &items[0] {
        WalletConsensusItem::PegOutSignature(sig) => assert_eq!(sig.txid, [7u8; 32]),
        other => panic!("expected a signature item, got {:?}", other),
    }
    match &items[1] {
        WalletConsensusItem::RoundConsensus(rc) => {
            assert_eq!(rc.block_height, 55);
            assert_eq!(rc.fee_rate.sats_per_kvb, 1000, "the configured default applies");
        }
        other => panic!("expected a round item, got {:?}", other),
    }
}
