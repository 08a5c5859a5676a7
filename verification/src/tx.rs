//! Bitcoin transactions, reduced to the plain values the wallet reads
//! and writes: inputs by their previous outpoint, outputs by value and
//! script. Hashing (txid, BIP143 sighash) is the `bitcoin` crate's and
//! is relied upon through the wrappers at the bottom.

use vstd::prelude::*;

use bitcoin::hashes::Hash as HashTrait;
use bitcoin::util::sighash::SighashCache;
use bitcoin::{
    EcdsaSighashType, OutPoint as BtcOutPoint, PackedLockTime, Script, Sequence, Transaction,
    TxIn, TxOut, Txid, Witness,
};

verus! {

/// One input of a bitcoin transaction, as the wallet models it.
#[derive(Clone, Copy, Debug, PartialEq, Eq)]
pub struct TxInData {
    pub prev_txid: [u8; 32],
    pub prev_vout: u32,
    pub sequence: u32,
}

/// One output of a bitcoin transaction.
#[derive(Clone, Debug, PartialEq, Eq)]
pub struct TxOutData {
    pub value: u64,
    pub script_pubkey: Vec<u8>,
}

/// A bitcoin transaction without witnesses.
#[derive(Clone, Debug, PartialEq, Eq)]
pub struct TxData {
    pub version: i32,
    pub lock_time: u32,
    pub inputs: Vec<TxInData>,
    pub outputs: Vec<TxOutData>,
}

pub ghost struct TxInView {
    pub prev_txid: Seq<u8>,
    pub prev_vout: u32,
    pub sequence: u32,
}

pub ghost struct TxOutView {
    pub value: u64,
    pub script_pubkey: Seq<u8>,
}

pub ghost struct TxDataView {
    pub version: i32,
    pub lock_time: u32,
    pub inputs: Seq<TxInView>,
    pub outputs: Seq<TxOutView>,
}

impl View for TxInData {
    type V = TxInView;

    open spec fn view(&self) -> TxInView {
        TxInView {
            prev_txid: self.prev_txid@,
            prev_vout: self.prev_vout,
            sequence: self.sequence,
        }
    }
}

impl View for TxOutData {
    type V = TxOutView;

    open spec fn view(&self) -> TxOutView {
        TxOutView { value: self.value, script_pubkey: self.script_pubkey@ }
    }
}

impl View for TxData {
    type V = TxDataView;

    open spec fn view(&self) -> TxDataView {
        TxDataView {
            version: self.version,
            lock_time: self.lock_time,
            inputs: self.inputs@.map_values(|i: TxInData| i@),
            outputs: self.outputs@.map_values(|o: TxOutData| o@),
        }
    }
}

/// Copies a transaction model.
pub fn clone_txdata(tx: &TxData) -> (r: TxData)
    ensures
        r@ == tx@,
{
    let mut inputs: Vec<TxInData> = Vec::with_capacity(tx.inputs.len());
    let mut i: usize = 0;
    while i < tx.inputs.len()
        invariant
            i <= tx.inputs@.len(),
            inputs@ == tx.inputs@.take(i as int),
        decreases tx.inputs@.len() - i,
    {
        inputs.push(tx.inputs[i]);
        proof {
            assert(inputs@ =~= tx.inputs@.take(i + 1));
        }
        i += 1;
    }
    let mut outputs: Vec<TxOutData> = Vec::with_capacity(tx.outputs.len());
    let mut o: usize = 0;
    while o < tx.outputs.len()
        invariant
            o <= tx.outputs@.len(),
            outputs@.len() == o,
            forall|j: int| 0 <= j < o ==> #[trigger] outputs@[j]@ == tx.outputs@[j]@,
        decreases tx.outputs@.len() - o,
    {
        let out = &tx.outputs[o];
        let mut script: Vec<u8> = Vec::with_capacity(out.script_pubkey.len());
        let mut b: usize = 0;
        while b < out.script_pubkey.len()
            invariant
                b <= out.script_pubkey@.len(),
                script@ == out.script_pubkey@.take(b as int),
            decreases out.script_pubkey@.len() - b,
        {
            script.push(out.script_pubkey[b]);
            proof {
                assert(script@ =~= out.script_pubkey@.take(b + 1));
            }
            b += 1;
        }
        proof {
            assert(out.script_pubkey@.take(out.script_pubkey@.len() as int)
                =~= out.script_pubkey@);
        }
        outputs.push(TxOutData { value: out.value, script_pubkey: script });
        o += 1;
    }
    proof {
        assert(tx.inputs@.take(tx.inputs@.len() as int) =~= tx.inputs@);
    }
    let r = TxData { version: tx.version, lock_time: tx.lock_time, inputs, outputs };
    proof {
        assert(r@.inputs =~= tx@.inputs);
        assert(r@.outputs =~= tx@.outputs);
    }
    r
}

// The transaction id (the double SHA256 of the witness-less
// serialization, in internal byte order) of a modelled transaction, as
// computed by the bitcoin crate's `Transaction::txid`.
pub uninterp spec fn txid_of(tx: TxDataView) -> Seq<u8>;

// The BIP143 segwit `SIGHASH_ALL` digest of one input of a modelled
// transaction, for a given script code and spent output value, as
// computed by the bitcoin crate's `SighashCache::segwit_signature_hash`.
pub uninterp spec fn segwit_sighash_of(
    tx: TxDataView,
    idx: int,
    script_code: Seq<u8>,
    value: u64,
) -> Seq<u8>;

/// Relies on the bitcoin crate's `Transaction::txid`; the body only
/// rebuilds the modelled transaction value for it, field by field.
#[verifier::external_body]
pub(crate) fn tx_txid(tx: &TxData) -> (r: [u8; 32])
    ensures
        r@ == txid_of(tx@),
        r@.len() == 32,
{
    let input = tx.inputs.iter().map(|i| TxIn {
        previous_output: BtcOutPoint::new(Txid::from_inner(i.prev_txid), i.prev_vout),
        script_sig: Script::new(),
        sequence: Sequence(i.sequence),
        witness: Witness::new(),
    }).collect();
    let output = tx.outputs.iter().map(
        |o| TxOut { value: o.value, script_pubkey: Script::from(o.script_pubkey.clone()) },
    ).collect();
    let t = Transaction { version: tx.version, lock_time: PackedLockTime(tx.lock_time), input, output };
    t.txid().into_inner()
}

/// Relies on the bitcoin crate's `SighashCache::segwit_signature_hash`
/// with `SIGHASH_ALL`; the body only rebuilds the modelled transaction
/// value for it, field by field. Fails exactly on an out-of-range input
/// index.
#[verifier::external_body]
pub(crate) fn tx_segwit_sighash(
    tx: &TxData,
    idx: usize,
    script_code: &Vec<u8>,
    value: u64,
) -> (r: Option<[u8; 32]>)
    ensures
        r is Some <==> idx < tx@.inputs.len(),
        r is Some ==> r.unwrap()@ == segwit_sighash_of(tx@, idx as int, script_code@, value),
{
    let input = tx.inputs.iter().map(|i| TxIn {
        previous_output: BtcOutPoint::new(Txid::from_inner(i.prev_txid), i.prev_vout),
        script_sig: Script::new(),
        sequence: Sequence(i.sequence),
        witness: Witness::new(),
    }).collect();
    let output = tx.outputs.iter().map(
        |o| TxOut { value: o.value, script_pubkey: Script::from(o.script_pubkey.clone()) },
    ).collect();
    let t = Transaction { version: tx.version, lock_time: PackedLockTime(tx.lock_time), input, output };
    let script = Script::from(script_code.clone());
    match SighashCache::new(&t).segwit_signature_hash(idx, &script, value, EcdsaSighashType::All) {
        Ok(h) => Some(h.into_inner()),
        Err(_) => None,
    }
}

} // verus!
