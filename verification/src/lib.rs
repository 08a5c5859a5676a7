//! Federated bitcoin custody wallet: consensus state machine, peg-in
//! verification, peg-out construction and signing, and a chain follower.
//!
//! The federation members jointly own a wsh(sortedmulti) descriptor over
//! per-peer compressed public keys. Each epoch the members agree on a round
//! consensus value (block height, fee rate, randomness beacon), validate
//! user peg-ins against SPV proofs, build and co-sign peg-out transactions,
//! and recognize the change of broadcast peg-outs once it confirms.

use vstd::prelude::*;

pub mod bft;
pub mod config;
pub mod db;
pub mod descriptor;
pub mod dummy_client;
pub mod dummy_db;
pub mod dummy_server;
pub mod gateway;
pub mod keys;
pub mod psbt;
pub mod sort;
pub mod stateless;
pub mod tx;
pub mod wallet;
pub mod txoproof;
pub mod types;

use crate::psbt::{PsbtData, PsbtView};
use crate::tx::{TxData, TxDataView};
use crate::txoproof::{PegInProof, PegInProofError};
use crate::types::{Address, Feerate, Network, PeerId};

verus! {

/// One peer's proposal for the next round consensus value.
#[derive(Clone, Copy, Debug, PartialEq, Eq)]
pub struct RoundConsensusItem {
    pub block_height: u32,
    pub fee_rate: Feerate,
    pub randomness: [u8; 32],
}

/// One peer's signatures for a queued peg-out transaction: one
/// signature per input, in input order, in 64-byte compact form.
#[derive(Clone, Debug, PartialEq, Eq, Hash)]
pub struct PegOutSignatureItem {
    pub txid: [u8; 32],
    pub signature: Vec<[u8; 64]>,
}

pub ghost struct PegOutSignatureItemView {
    pub txid: Seq<u8>,
    pub signature: Seq<Seq<u8>>,
}

impl View for PegOutSignatureItem {
    type V = PegOutSignatureItemView;

    open spec fn view(&self) -> PegOutSignatureItemView {
        PegOutSignatureItemView {
            txid: self.txid@,
            signature: self.signature@.map_values(|s: [u8; 64]| s@),
        }
    }
}

/// What a peer may contribute to an epoch.
#[derive(Clone, Debug, PartialEq, Eq)]
pub enum WalletConsensusItem {
    RoundConsensus(RoundConsensusItem),
    PegOutSignature(PegOutSignatureItem),
}

/// The agreed-upon per-epoch value; exactly one exists after the first
/// epoch, overwritten each epoch.
#[derive(Clone, Copy, Debug, PartialEq, Eq)]
pub struct RoundConsensus {
    pub block_height: u32,
    pub fee_rate: Feerate,
    pub randomness_beacon: [u8; 32],
}

/// A confirmed deposit the federation can spend: the tweak its script
/// was derived with and its value in satoshi.
#[derive(Clone, Copy, Debug, PartialEq, Eq)]
pub struct SpendableUTXO {
    pub tweak: [u8; 32],
    pub amount: u64,
}

/// A peg-out transaction that finalized and is ready to broadcast,
/// together with the tweak of its change output.
#[derive(Clone, Debug, PartialEq, Eq)]
pub struct PendingTransaction {
    /// The transaction without witnesses (its txid equals the final
    /// transaction's).
    pub tx: TxData,
    /// The fully signed transaction, consensus-serialized, as the
    /// outside finalizer returned it; this is what gets broadcast.
    pub raw_tx: Vec<u8>,
    pub tweak: [u8; 32],
    /// The change value in satoshi.
    pub change: u64,
}

pub ghost struct PendingTransactionView {
    pub tx: TxDataView,
    pub raw_tx: Seq<u8>,
    pub tweak: Seq<u8>,
    pub change: u64,
}

impl View for PendingTransaction {
    type V = PendingTransactionView;

    open spec fn view(&self) -> PendingTransactionView {
        PendingTransactionView {
            tx: self.tx@,
            raw_tx: self.raw_tx@,
            tweak: self.tweak@,
            change: self.change,
        }
    }
}

/// Copies a pending transaction.
pub fn clone_pending_transaction(p: &PendingTransaction) -> (r: PendingTransaction)
    ensures
        r@ == p@,
{
    PendingTransaction {
        tx: crate::tx::clone_txdata(&p.tx),
        raw_tx: crate::stateless::clone_bytes(&p.raw_tx),
        tweak: p.tweak,
        change: p.change,
    }
}

/// The fee a peg-out pays: the rate it was built with and the weight
/// the builder accounted for.
#[derive(Clone, Copy, Debug, PartialEq, Eq, Hash)]
pub struct PegOutFees {
    pub fee_rate: Feerate,
    pub total_weight: u64,
}

impl PegOutFees {
    /// The fee amount in satoshi these parameters stand for.
    pub fn amount(&self) -> (r: u64)
        ensures
            r == self.fee_rate.spec_fee_sats(self.total_weight),
    {
        self.fee_rate.calculate_fee(self.total_weight)
    }
}

/// A PSBT awaiting enough signatures from the federation to become a
/// [`PendingTransaction`].
#[derive(Clone, Debug, PartialEq, Eq)]
pub struct UnsignedTransaction {
    pub psbt: PsbtData,
    /// The signature items delivered so far, in BFT delivery order.
    pub signatures: Vec<(PeerId, PegOutSignatureItem)>,
    /// The change value in satoshi.
    pub change: u64,
    pub fees: PegOutFees,
}

pub ghost struct UnsignedTransactionView {
    pub psbt: PsbtView,
    pub signatures: Seq<(PeerId, PegOutSignatureItemView)>,
    pub change: u64,
    pub fees: PegOutFees,
}

impl View for UnsignedTransaction {
    type V = UnsignedTransactionView;

    open spec fn view(&self) -> UnsignedTransactionView {
        UnsignedTransactionView {
            psbt: self.psbt@,
            signatures: self.signatures@.map_values(
                |s: (PeerId, PegOutSignatureItem)| (s.0, s.1@),
            ),
            change: self.change,
            fees: self.fees,
        }
    }
}

/// A user's withdrawal request: recipient, amount in satoshi, and the
/// fees the user agreed to pay.
#[derive(Clone, Debug, PartialEq, Eq)]
pub struct PegOut {
    pub recipient: Address,
    pub amount: u64,
    pub fees: PegOutFees,
}

/// The bitcoin transaction id of the transaction a withdrawal request
/// was put into.
#[derive(Clone, Copy, Debug, PartialEq, Eq)]
pub struct WalletOutputOutcome(pub [u8; 32]);

/// A peg-in claim, as routed in by the surrounding framework.
#[derive(Clone, Debug, PartialEq, Eq)]
pub struct WalletInput(pub Box<PegInProof>);

/// A peg-out request, as routed in by the surrounding framework.
#[derive(Clone, Debug, PartialEq, Eq)]
pub struct WalletOutput(pub PegOut);

/// The wallet precomputes nothing across inputs.
#[derive(Clone, Copy, Debug, PartialEq, Eq, Structural)]
pub struct WalletVerificationCache;

/// The errors a wallet operation can be rejected with.
#[derive(Clone, Debug, PartialEq, Eq)]
pub enum WalletError {
    /// Expected network first, actual second.
    WrongNetwork(Network, Network),
    /// A bitcoin node query failed; carries the node's words.
    RpcError(String),
    UnknownNetwork(String),
    /// The peg-in proof speaks of a block the federation has not
    /// accepted.
    UnknownPegInProofBlock([u8; 32]),
    PegInProofError(PegInProofError),
    PegInAlreadyClaimed,
    /// Requested fee rate first, consensus floor second.
    PegOutFeeRate(Feerate, Feerate),
    NotEnoughSpendableUTXO,
    /// A key tweak failed to derive while signing; cryptographically
    /// this does not happen, but it is reported rather than trusted.
    TweakingFailed,
}

/// The per-peer failures of peg-out signature processing; they skip
/// the offending peer and leave the transaction queued.
#[derive(Clone, Copy, Debug, PartialEq, Eq)]
pub enum ProcessPegOutSigError {
    UnknownTransaction([u8; 32]),
    /// Expected count first, received second.
    WrongSignatureCount(usize, usize),
    SighashError,
    MalformedSignature,
    InvalidSignature,
    DuplicateSignature,
    MissingOrMalformedChangeTweak,
    ErrorFinalizingPsbt,
}

} // verus!
