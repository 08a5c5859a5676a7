//! The example module's ledger, migration and client states, plus the
//! shared plain types.

use fedimint_wallet::dummy_client::{DummyClientState, DummyClientStateMachine};
use fedimint_wallet::dummy_db::{migrate_to_v1, DummyDb};
use fedimint_wallet::dummy_server::{
    get_funds, set_funds, Dummy, DummyConfig, DummyError, DummyInput, DummyOutput, FED_ACCOUNT,
};
use bitcoin::secp256k1::{PublicKey, Secp256k1, SecretKey};
use fedimint_wallet::config::WalletConfig;
use fedimint_wallet::db::WalletDb;
use fedimint_wallet::types::{Amount, BitcoinOutPoint, Feerate, Network, OutPoint, PeerId};
use fedimint_wallet::wallet::AuditSummary;
use fedimint_wallet::SpendableUTXO;

fn empty_db() -> DummyDb {
    DummyDb { funds_v0: Vec::new(), funds: Vec::new(), outputs: Vec::new() }
}

fn module() -> Dummy {
    Dummy::new(DummyConfig { tx_fee: Amount { msats: 7 } })
}

#[test]
fn funds_ledger_reads_and_writes() {
    let mut db = empty_db();
    let alice = String::from("alice");
    let bob = String::from("bob");
    assert_eq!(get_funds(&db, &alice).msats, 0);
    set_funds(&mut db, &alice, Amount { msats: 500 });
    set_funds(&mut db, &bob, Amount { msats: 100 });
    assert_eq!(get_funds(&db, &alice).msats, 500);
    assert_eq!(get_funds(&db, &bob).msats, 100);
    set_funds(&mut db, &alice, Amount { msats: 300 });
    assert_eq!(get_funds(&db, &alice).msats, 300);
    assert_eq!(get_funds(&db, &bob).msats, 100);
}

#[test]
fn inputs_spend_and_outputs_credit() {
    let module = module();
    let mut db = empty_db();
    let account = String::from("alice");
    set_funds(&mut db, &account, Amount { msats: 1_000 });

    // Overspending is rejected.
    let too_much = DummyInput { account: account.clone(), amount: Amount { msats: 2_000 } };
    assert_eq!(module.validate_input(&db, &too_much), Err(DummyError::NotEnoughFunds));

    // A covered input is spent.
    let input = DummyInput { account: account.clone(), amount: Amount { msats: 400 } };
    let meta = module.apply_input(&mut db, &input).unwrap();
    assert_eq!(meta.amount.msats, 400);
    assert_eq!(meta.fee.msats, 7);
    assert_eq!(get_funds(&db, &account).msats, 600);

    // An output credits and is recorded.
    let output = DummyOutput { account: account.clone(), amount: Amount { msats: 250 } };
    let out_point = OutPoint { txid: [4u8; 32], out_idx: 1 };
    let meta = module.apply_output(&mut db, &output, out_point);
    assert_eq!(meta.amount.msats, 250);
    assert_eq!(get_funds(&db, &account).msats, 850);
    assert!(module.output_status(&db, out_point));
    assert!(!module.output_status(&db, OutPoint { txid: [4u8; 32], out_idx: 2 }));
}

#[test]
fn migration_moves_the_old_schema_over() {
    let mut db = empty_db();
    db.funds_v0.push((String::from("alice"), Amount { msats: 11 }));
    db.funds_v0.push((String::from("bob"), Amount { msats: 22 }));
    db.funds.push((String::from("carol"), Amount { msats: 33 }));
    migrate_to_v1(&mut db);
    assert_eq!(db.funds_v0.len(), 0);
    assert_eq!(db.funds.len(), 3);
    assert_eq!(get_funds(&db, &String::from("alice")).msats, 11);
    assert_eq!(get_funds(&db, &String::from("bob")).msats, 22);
    assert_eq!(get_funds(&db, &String::from("carol")).msats, 33);
}

#[test]
fn client_state_machine_finishes_and_credits() {
    let machine = DummyClientStateMachine {
        operation_id: [1u8; 32],
        txid: [2u8; 32],
        idx: 0,
        amount: Amount { msats: 900 },
        state: DummyClientState::Input,
    };
    assert_eq!(machine.operation_id(), [1u8; 32]);
    let mut funds = Amount { msats: 100 };
    let done = machine.add_amount(&mut funds);
    assert_eq!(funds.msats, 1_000);
    assert_eq!(done.state, DummyClientState::Done);
    assert_eq!(done.amount.msats, 900);
}

#[test]
fn amounts_and_fee_rates_compute_exactly() {
    assert_eq!(Amount::from_sats(21).msats, 21_000);
    assert_eq!(Amount::from_sats(u64::MAX).msats, u64::MAX);
    let rate = Feerate { sats_per_kvb: 1000 };
    assert_eq!(rate.calculate_fee(1000), 1000);
    assert_eq!(rate.calculate_fee(999), 999);
    assert_eq!(rate.calculate_fee(0), 0);
    let rate = Feerate { sats_per_kvb: 2500 };
    assert_eq!(rate.calculate_fee(400), 1000);

    let fees = fedimint_wallet::PegOutFees {
        fee_rate: Feerate { sats_per_kvb: 2000 },
        total_weight: 750,
    };
    assert_eq!(fees.amount(), 1500);
}

#[test]
fn audit_sums_every_balance() {
    let secp = Secp256k1::new();
    let mut sk_bytes = [3u8; 32];
    sk_bytes[0] = 1;
    let sk = SecretKey::from_slice(&sk_bytes).unwrap();
    let pk = PublicKey::from_secret_key(&secp, &sk).serialize();
    let wallet = fedimint_wallet::wallet::Wallet::new(WalletConfig::new(
        vec![(PeerId { id: 0 }, pk)],
        PeerId { id: 0 },
        sk_bytes,
        1,
        Network::Regtest,
        10,
    ));

    let mut db = WalletDb::new();
    db.utxos.push((
        BitcoinOutPoint { txid: [1u8; 32], vout: 0 },
        SpendableUTXO { tweak: [1u8; 32], amount: 1_000 },
    ));
    db.utxos.push((
        BitcoinOutPoint { txid: [2u8; 32], vout: 0 },
        SpendableUTXO { tweak: [2u8; 32], amount: 2_000 },
    ));
    assert_eq!(wallet.get_wallet_value(&db), 3_000);
    let summary: AuditSummary = wallet.audit(&db);
    assert_eq!(summary.spendable_sats, 3_000);
    assert_eq!(summary.unsigned_change_sats, 0);
    assert_eq!(summary.pending_change_sats, 0);
}

#[test]
fn example_module_audit_separates_issuer_and_users() {
    let module = module();
    let mut db = empty_db();
    set_funds(&mut db, &String::from(FED_ACCOUNT), fedimint_wallet::types::Amount { msats: 900 });
    set_funds(&mut db, &String::from("alice"), fedimint_wallet::types::Amount { msats: 600 });
    set_funds(&mut db, &String::from("bob"), fedimint_wallet::types::Amount { msats: 300 });
    let summary = module.audit(&db);
    assert_eq!(summary.issuer_msats, 900);
    assert_eq!(summary.user_msats, 900);
}
