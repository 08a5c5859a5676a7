//! Partially signed transactions, reduced to the plain values the
//! wallet reads: per input the spent output, witness script, tweak and
//! collected signatures; per output the optional proprietary tweak
//! entry. At finalization the modelled value is rebuilt as a real PSBT
//! (with the proprietary key `{ prefix: "fedimint", subtype: 0 }`
//! carrying each tweak) and handed to miniscript's finalizer.

use vstd::prelude::*;

use crate::tx::{TxData, TxDataView, TxOutData, TxOutView};
use bitcoin::secp256k1::ecdsa::Signature;
use bitcoin::secp256k1::{PublicKey as SecpPublicKey, Secp256k1};
use bitcoin::util::psbt::raw::ProprietaryKey;
use bitcoin::util::psbt::PartiallySignedTransaction;
use bitcoin::{
    EcdsaSig, OutPoint as BtcOutPoint, PackedLockTime, PublicKey, Script, Sequence, Transaction,
    TxIn, TxOut, Txid, Witness,
};
use bitcoin::hashes::Hash as HashTrait;
use miniscript::psbt::PsbtExt;

verus! {

/// One input of a modelled PSBT.
#[derive(Clone, Debug, PartialEq, Eq)]
pub struct PsbtInputData {
    /// The output being spent: its value and (tweaked) script pubkey.
    pub witness_utxo: TxOutData,
    /// The witness script that satisfies the tweaked descriptor.
    pub witness_script: Vec<u8>,
    /// The tweak under which this input's UTXO was created.
    pub tweak: [u8; 32],
    /// Collected signatures, keyed by tweaked compressed public key, in
    /// 64-byte compact form.
    pub partial_sigs: Vec<([u8; 33], [u8; 64])>,
}

/// One output of a modelled PSBT: only the proprietary tweak entry.
#[derive(Clone, Debug, PartialEq, Eq)]
pub struct PsbtOutputData {
    pub tweak: Option<Vec<u8>>,
}

/// A modelled PSBT: the unsigned transaction plus its per-input and
/// per-output maps.
#[derive(Clone, Debug, PartialEq, Eq)]
pub struct PsbtData {
    pub unsigned_tx: TxData,
    pub inputs: Vec<PsbtInputData>,
    pub outputs: Vec<PsbtOutputData>,
}

pub ghost struct PsbtInputView {
    pub witness_utxo: TxOutView,
    pub witness_script: Seq<u8>,
    pub tweak: Seq<u8>,
    pub partial_sigs: Seq<(Seq<u8>, Seq<u8>)>,
}

pub ghost struct PsbtOutputView {
    pub tweak: Option<Seq<u8>>,
}

pub ghost struct PsbtView {
    pub unsigned_tx: TxDataView,
    pub inputs: Seq<PsbtInputView>,
    pub outputs: Seq<PsbtOutputView>,
}

impl View for PsbtInputData {
    type V = PsbtInputView;

    open spec fn view(&self) -> PsbtInputView {
        PsbtInputView {
            witness_utxo: self.witness_utxo@,
            witness_script: self.witness_script@,
            tweak: self.tweak@,
            partial_sigs: self.partial_sigs@.map_values(
                |s: ([u8; 33], [u8; 64])| (s.0@, s.1@),
            ),
        }
    }
}

impl View for PsbtOutputData {
    type V = PsbtOutputView;

    open spec fn view(&self) -> PsbtOutputView {
        PsbtOutputView {
            tweak: match self.tweak {
                Some(t) => Some(t@),
                None => None,
            },
        }
    }
}

impl View for PsbtData {
    type V = PsbtView;

    open spec fn view(&self) -> PsbtView {
        PsbtView {
            unsigned_tx: self.unsigned_tx@,
            inputs: self.inputs@.map_values(|i: PsbtInputData| i@),
            outputs: self.outputs@.map_values(|o: PsbtOutputData| o@),
        }
    }
}

/// Whether one input's signature keys are pairwise distinct.
pub open spec fn sig_keys_unique(sigs: Seq<(Seq<u8>, Seq<u8>)>) -> bool {
    forall|i: int, j: int| 0 <= i < j < sigs.len() ==> sigs[i].0 != sigs[j].0
}

impl PsbtView {
    /// A PSBT is well formed when its maps line up with its
    /// transaction and no input holds two signatures under one key.
    pub open spec fn wf(self) -> bool {
        &&& self.inputs.len() == self.unsigned_tx.inputs.len()
        &&& self.outputs.len() == self.unsigned_tx.outputs.len()
        &&& forall|i: int| 0 <= i < self.inputs.len() ==> sig_keys_unique(
            #[trigger] self.inputs[i].partial_sigs,
        )
    }
}

/// Whether an input's signature list holds an entry under a key.
pub open spec fn spec_has_sig_key(sigs: Seq<(Seq<u8>, Seq<u8>)>, pk: Seq<u8>) -> bool {
    exists|i: int| 0 <= i < sigs.len() && sigs[i].0 == pk
}

impl PsbtInputData {
    /// Whether a signature under the given key was already collected.
    pub fn has_sig_for(&self, pk: &[u8; 33]) -> (r: bool)
        ensures
            r == spec_has_sig_key(self@.partial_sigs, pk@),
    {
        let mut i: usize = 0;
        while i < self.partial_sigs.len()
            invariant
                i <= self.partial_sigs@.len(),
                forall|j: int| 0 <= j < i ==> self@.partial_sigs[j].0 != pk@,
        decreases self.partial_sigs@.len() - i,
        {
            if crate::types::bytes33_equal(&self.partial_sigs[i].0, pk) {
                assert(self@.partial_sigs[i as int].0 == pk@);
                return true;
            }
            i += 1;
        }
        false
    }
}

/// The first proprietary tweak entry among a PSBT's outputs, in order.
pub open spec fn spec_first_output_tweak(outputs: Seq<PsbtOutputView>) -> Option<Seq<u8>>
    decreases outputs.len(),
{
    if outputs.len() == 0 {
        None
    } else {
        match outputs[0].tweak {
            Some(t) => Some(t),
            None => spec_first_output_tweak(outputs.drop_first()),
        }
    }
}

/// Finds the first output that carries a proprietary tweak entry.
pub fn first_output_tweak(psbt: &PsbtData) -> (r: Option<Vec<u8>>)
    ensures
        match r {
            Some(t) => spec_first_output_tweak(psbt@.outputs) == Some(t@),
            None => spec_first_output_tweak(psbt@.outputs) is None,
        },
{
    let mut i: usize = 0;
    proof {
        assert(psbt@.outputs.skip(0) =~= psbt@.outputs);
    }
    while i < psbt.outputs.len()
        invariant
            i <= psbt.outputs@.len(),
            spec_first_output_tweak(psbt@.outputs) == spec_first_output_tweak(
                psbt@.outputs.skip(i as int),
            ),
        decreases psbt.outputs@.len() - i,
    {
        proof {
            assert(psbt@.outputs.skip(i as int)[0] == psbt@.outputs[i as int]);
        }
        match &psbt.outputs[i].tweak {
            Some(t) => {
                return Some(t.clone());
            },
            None => {
                proof {
                    assert(psbt@.outputs.skip(i as int).drop_first() =~= psbt@.outputs.skip(
                        i + 1,
                    ));
                }
            },
        }
        i += 1;
    }
    proof {
        assert(psbt@.outputs.skip(psbt.outputs@.len() as int).len() == 0);
    }
    None
}

/// Copies a modelled PSBT.
pub fn clone_psbt(psbt: &PsbtData) -> (r: PsbtData)
    ensures
        r@ == psbt@,
{
    let unsigned_tx = crate::tx::clone_txdata(&psbt.unsigned_tx);
    let mut inputs: Vec<PsbtInputData> = Vec::with_capacity(psbt.inputs.len());
    let mut i: usize = 0;
    while i < psbt.inputs.len()
        invariant
            i <= psbt.inputs@.len(),
            inputs@.len() == i,
            forall|j: int| 0 <= j < i ==> #[trigger] inputs@[j]@ == psbt.inputs@[j]@,
        decreases psbt.inputs@.len() - i,
    {
        let input = &psbt.inputs[i];
        let rebuilt = PsbtInputData {
            witness_utxo: TxOutData {
                value: input.witness_utxo.value,
                script_pubkey: crate::stateless::clone_bytes(&input.witness_utxo.script_pubkey),
            },
            witness_script: crate::stateless::clone_bytes(&input.witness_script),
            tweak: input.tweak,
            partial_sigs: crate::stateless::clone_sigs(&input.partial_sigs),
        };
        inputs.push(rebuilt);
        proof {
            assert(inputs@[i as int]@.partial_sigs =~= psbt.inputs@[i as int]@.partial_sigs);
            assert(inputs@[i as int]@ == psbt.inputs@[i as int]@);
        }
        i += 1;
    }
    let mut outputs: Vec<PsbtOutputData> = Vec::with_capacity(psbt.outputs.len());
    let mut o: usize = 0;
    while o < psbt.outputs.len()
        invariant
            o <= psbt.outputs@.len(),
            outputs@.len() == o,
            forall|j: int| 0 <= j < o ==> #[trigger] outputs@[j]@ == psbt.outputs@[j]@,
        decreases psbt.outputs@.len() - o,
    {
        let tweak = match &psbt.outputs[o].tweak {
            Some(bytes) => Some(crate::stateless::clone_bytes(bytes)),
            None => None,
        };
        outputs.push(PsbtOutputData { tweak });
        o += 1;
    }
    let r = PsbtData { unsigned_tx, inputs, outputs };
    proof {
        assert(r@.inputs =~= psbt@.inputs);
        assert(r@.outputs =~= psbt@.outputs);
        assert(r@ == psbt@);
    }
    r
}

/// The BIP174 proprietary key under which the federation stores its
/// tweaks, as bytes: the ASCII identifier `fedimint` (the prefix) and
/// subtype zero. Consensus-critical and byte-exact.
pub open spec fn spec_tweak_key_prefix() -> Seq<u8> {
    seq![102u8, 101u8, 100u8, 105u8, 109u8, 105u8, 110u8, 116u8]
}

/// The proprietary key's prefix bytes (ASCII `fedimint`).
pub fn tweak_key_prefix() -> (r: Vec<u8>)
    ensures
        r@ == spec_tweak_key_prefix(),
{
    let mut prefix: Vec<u8> = Vec::with_capacity(8);
    prefix.push(102);
    prefix.push(101);
    prefix.push(100);
    prefix.push(105);
    prefix.push(109);
    prefix.push(105);
    prefix.push(110);
    prefix.push(116);
    proof {
        assert(prefix@ =~= spec_tweak_key_prefix());
    }
    prefix
}

/// The proprietary key's subtype.
pub fn tweak_key_subtype() -> (r: u8)
    ensures
        r == 0,
{
    0
}

#[verifier::external_type_specification]
#[verifier::external_body]
pub struct ExPartiallySignedTransaction(PartiallySignedTransaction);

/// Relies on the bitcoin crate's
/// `PartiallySignedTransaction::from_unsigned_tx`; the body only
/// rebuilds the modelled transaction for it, field by field. The
/// modelled transactions carry no signatures, which is what
/// `from_unsigned_tx` requires.
#[verifier::external_body]
pub(crate) fn psbt_from_tx(tx: &TxData) -> (r: Option<PartiallySignedTransaction>) {
    let input = tx.inputs.iter().map(|i| TxIn {
        previous_output: BtcOutPoint::new(Txid::from_inner(i.prev_txid), i.prev_vout),
        script_sig: Script::new(),
        sequence: Sequence(i.sequence),
        witness: Witness::new(),
    }).collect();
    let output = tx.outputs.iter().map(
        |o| TxOut { value: o.value, script_pubkey: Script::from(o.script_pubkey.clone()) },
    ).collect();
    let t = Transaction { version: tx.version, lock_time: PackedLockTime(tx.lock_time), input, output };
    PartiallySignedTransaction::from_unsigned_tx(t).ok()
}

/// Relies on the bitcoin crate's PSBT input map: copies one modelled
/// input (witness UTXO, witness script, and the tweak under the given
/// proprietary key parts) into the real PSBT; out-of-range indices
/// are left alone.
#[verifier::external_body]
pub(crate) fn psbt_set_input(
    p: &mut PartiallySignedTransaction,
    idx: usize,
    value: u64,
    script_pubkey: &Vec<u8>,
    witness_script: &Vec<u8>,
    key_prefix: &Vec<u8>,
    key_subtype: u8,
    tweak: &[u8; 32],
) {
    let key = ProprietaryKey { prefix: key_prefix.clone(), subtype: key_subtype, key: Vec::new() };
    if let Some(input) = p.inputs.get_mut(idx) {
        input.witness_utxo = Some(
            TxOut { value, script_pubkey: Script::from(script_pubkey.clone()) },
        );
        input.witness_script = Some(Script::from(witness_script.clone()));
        input.proprietary.insert(key, tweak.to_vec());
    }
}

/// Relies on the bitcoin crate's PSBT output map: copies one modelled
/// output's tweak entry, under the given proprietary key parts, into
/// the real PSBT.
#[verifier::external_body]
pub(crate) fn psbt_set_output_tweak(
    p: &mut PartiallySignedTransaction,
    idx: usize,
    key_prefix: &Vec<u8>,
    key_subtype: u8,
    tweak: &Vec<u8>,
) {
    let key = ProprietaryKey { prefix: key_prefix.clone(), subtype: key_subtype, key: Vec::new() };
    if let Some(output) = p.outputs.get_mut(idx) {
        output.proprietary.insert(key, tweak.clone());
    }
}

/// Relies on the bitcoin crate's PSBT `partial_sigs` map: records one
/// compact signature under a compressed key, re-encoded as a DER
/// `SIGHASH_ALL` signature; returns whether it was newly inserted.
#[verifier::external_body]
pub(crate) fn psbt_add_partial_sig(
    p: &mut PartiallySignedTransaction,
    idx: usize,
    pk: &[u8; 33],
    sig: &[u8; 64],
) -> (r: bool) {
    let pk = match SecpPublicKey::from_slice(&pk[..]) {
        Ok(k) => k,
        Err(_) => return false,
    };
    let sig = match Signature::from_compact(&sig[..]) {
        Ok(s) => s,
        Err(_) => return false,
    };
    match p.inputs.get_mut(idx) {
        Some(input) => input.partial_sigs.insert(
            PublicKey { compressed: true, inner: pk },
            EcdsaSig::sighash_all(sig),
        ).is_none(),
        None => false,
    }
}

/// Relies on miniscript's `PsbtExt::finalize_mut` and the bitcoin
/// crate's `extract_tx` and consensus serialization: assembles the
/// final witnesses and returns the broadcastable transaction bytes, or
/// `None` where the collected signatures do not satisfy an input.
#[verifier::external_body]
pub(crate) fn psbt_finalize_extract(p: &mut PartiallySignedTransaction) -> (r: Option<Vec<u8>>) {
    let secp = Secp256k1::verification_only();
    match p.finalize_mut(&secp) {
        Ok(()) => Some(bitcoin::consensus::encode::serialize(&p.clone().extract_tx())),
        Err(_) => None,
    }
}

/// Rebuilds a modelled PSBT as a real one, hands it to the outside
/// finalizer, and returns the serialized final transaction on success.
/// What comes back is decided by the outside finalizer; the callers'
/// contracts speak only of the modelled state.
pub(crate) fn realize_and_finalize(psbt: &PsbtData) -> (r: Option<Vec<u8>>) {
    let mut outp = match psbt_from_tx(&psbt.unsigned_tx) {
        Some(p0) => p0,
        None => {
            return None;
        },
    };
    let key_prefix = tweak_key_prefix();
    let key_subtype = tweak_key_subtype();
    let mut i: usize = 0;
    while i < psbt.inputs.len()
        decreases psbt.inputs@.len() - i,
    {
        let input = &psbt.inputs[i];
        psbt_set_input(
            &mut outp,
            i,
            input.witness_utxo.value,
            &input.witness_utxo.script_pubkey,
            &input.witness_script,
            &key_prefix,
            key_subtype,
            &input.tweak,
        );
        let mut s: usize = 0;
        while s < input.partial_sigs.len()
            decreases input.partial_sigs@.len() - s,
        {
            psbt_add_partial_sig(&mut outp, i, &input.partial_sigs[s].0, &input.partial_sigs[s].1);
            s += 1;
        }
        i += 1;
    }
    let mut o: usize = 0;
    while o < psbt.outputs.len()
        decreases psbt.outputs@.len() - o,
    {
        match &psbt.outputs[o].tweak {
            Some(t) => psbt_set_output_tweak(&mut outp, o, &key_prefix, key_subtype, t),
            None => (),
        }
        o += 1;
    }
    psbt_finalize_extract(&mut outp)
}

} // verus!
