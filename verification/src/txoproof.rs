//! Peg-in proofs: a bitcoin transaction together with an SPV merkle
//! branch tying it to a block, and the claimant's key. The merkle
//! branch and the block hash are checked by the `bitcoin` crate through
//! the wrappers below; everything the proof claims about the
//! transaction's outputs is verified code.

use vstd::prelude::*;

use crate::descriptor::{key_views, spec_tweaked_script_pubkey, PegInDescriptor};
use crate::tx::{tx_txid, txid_of, TxData, TxOutData};
use crate::types::{bytes32_equal, bytes_vec_equal, BitcoinOutPoint};
use bitcoin::consensus::encode::deserialize;
use bitcoin::hashes::Hash as HashTrait;
use bitcoin::util::merkleblock::PartialMerkleTree;
use bitcoin::{BlockHeader, TxMerkleNode, Txid};

verus! {

/// A bitcoin block header, by its six fields.
#[derive(Clone, Copy, Debug, PartialEq, Eq)]
pub struct BlockHeaderData {
    pub version: i32,
    pub prev_blockhash: [u8; 32],
    pub merkle_root: [u8; 32],
    pub time: u32,
    pub bits: u32,
    pub nonce: u32,
}

pub ghost struct BlockHeaderView {
    pub version: i32,
    pub prev_blockhash: Seq<u8>,
    pub merkle_root: Seq<u8>,
    pub time: u32,
    pub bits: u32,
    pub nonce: u32,
}

impl View for BlockHeaderData {
    type V = BlockHeaderView;

    open spec fn view(&self) -> BlockHeaderView {
        BlockHeaderView {
            version: self.version,
            prev_blockhash: self.prev_blockhash@,
            merkle_root: self.merkle_root@,
            time: self.time,
            bits: self.bits,
            nonce: self.nonce,
        }
    }
}

// The hash of a block header (double SHA256 of its 80-byte
// serialization, internal byte order), as computed by the bitcoin
// crate's `BlockHeader::block_hash`.
pub uninterp spec fn block_hash_of(header: BlockHeaderView) -> Seq<u8>;

// The merkle root and matched transaction ids a serialized partial
// merkle tree commits to, as extracted by the bitcoin crate's
// `PartialMerkleTree::extract_matches`; `None` where the bytes do not
// deserialize or the tree is malformed.
pub uninterp spec fn pmt_extract(pmt: Seq<u8>) -> Option<(Seq<u8>, Seq<Seq<u8>>)>;

/// Relies on the bitcoin crate's `BlockHeader::block_hash`; the body
/// only rebuilds the header value for it, field by field.
#[verifier::external_body]
pub(crate) fn header_block_hash(header: &BlockHeaderData) -> (r: [u8; 32])
    ensures
        r@ == block_hash_of(header@),
{
    let h = BlockHeader {
        version: header.version,
        prev_blockhash: bitcoin::BlockHash::from_inner(header.prev_blockhash),
        merkle_root: TxMerkleNode::from_inner(header.merkle_root),
        time: header.time,
        bits: header.bits,
        nonce: header.nonce,
    };
    h.block_hash().into_inner()
}

/// The view of the optional root-and-matches pair as byte sequences.
pub open spec fn opt_extract_view(o: Option<([u8; 32], Vec<[u8; 32]>)>) -> Option<
    (Seq<u8>, Seq<Seq<u8>>),
> {
    match o {
        Some(p) => Some((p.0@, p.1@.map_values(|t: [u8; 32]| t@))),
        None => None,
    }
}

/// Relies on the bitcoin crate's consensus decoding of
/// `PartialMerkleTree` and on `extract_matches`: the merkle root the
/// branch hashes to, and the transaction ids it proves present.
#[verifier::external_body]
pub(crate) fn pmt_extract_matches(pmt: &Vec<u8>) -> (r: Option<([u8; 32], Vec<[u8; 32]>)>)
    ensures
        opt_extract_view(r) == pmt_extract(pmt@),
{
    let tree: PartialMerkleTree = match deserialize(pmt.as_slice()) {
        Ok(tree) => tree,
        Err(_) => return None,
    };
    let mut matches: Vec<Txid> = Vec::new();
    let mut indexes: Vec<u32> = Vec::new();
    match tree.extract_matches(&mut matches, &mut indexes) {
        Ok(root) => Some((root.into_inner(), matches.iter().map(|t| t.into_inner()).collect())),
        Err(_) => None,
    }
}

/// An SPV proof that some transactions are contained in a block: the
/// block's header and a partial merkle tree over its transactions.
#[derive(Clone, Debug, PartialEq, Eq)]
pub struct TxOutProof {
    pub block_header: BlockHeaderData,
    pub merkle_proof: Vec<u8>,
}

/// Whether a serialized partial merkle tree proves a transaction to be
/// part of the block with the given header: it must extract cleanly,
/// hash to the header's merkle root, and list the transaction id.
pub open spec fn spec_proof_contains_tx(
    header: BlockHeaderView,
    pmt: Seq<u8>,
    txid: Seq<u8>,
) -> bool {
    match pmt_extract(pmt) {
        Some(extracted) => extracted.0 == header.merkle_root
            && extracted.1.contains(txid),
        None => false,
    }
}

impl TxOutProof {
    /// The hash of the block this proof speaks about.
    pub fn block(&self) -> (r: [u8; 32])
        ensures
            r@ == block_hash_of(self.block_header@),
    {
        header_block_hash(&self.block_header)
    }

    /// Whether the proof shows the given transaction id in the block.
    pub fn contains_tx(&self, txid: &[u8; 32]) -> (r: bool)
        ensures
            r == spec_proof_contains_tx(self.block_header@, self.merkle_proof@, txid@),
    {
        match pmt_extract_matches(&self.merkle_proof) {
            Some(extracted) => {
                if !bytes32_equal(&extracted.0, &self.block_header.merkle_root) {
                    return false;
                }
                let txids = extracted.1;
                let mut i: usize = 0;
                while i < txids.len()
                    invariant
                        i <= txids@.len(),
                        forall|j: int| 0 <= j < i ==> txids@[j]@ != txid@,
                        pmt_extract(self.merkle_proof@) == Some(
                            (self.block_header@.merkle_root, txids@.map_values(|t: [u8; 32]| t@)),
                        ),
                    decreases txids@.len() - i,
                {
                    if bytes32_equal(&txids[i], txid) {
                        assert(txids@.map_values(|t: [u8; 32]| t@)[i as int] == txid@);
                        return true;
                    }
                    i += 1;
                }
                proof {
                    let mapped = txids@.map_values(|t: [u8; 32]| t@);
                    assert forall|j: int| 0 <= j < mapped.len() implies mapped[j] != txid@ by {
                        assert(mapped[j] == txids@[j]@);
                    }
                }
                false
            },
            None => false,
        }
    }
}

/// The errors a peg-in proof can be rejected with.
#[derive(Clone, Copy, Debug, PartialEq, Eq, Structural)]
pub enum PegInProofError {
    /// The proof's merkle branch does not show the transaction.
    TransactionNotInProof,
    /// The claimed output index is beyond the transaction's outputs.
    OutputIndexOutOfRange,
    /// The descriptor could not be tweaked by the claimed key.
    ScriptDerivationFailed,
    /// The claimed output does not pay the tweaked federation script.
    OutputScriptMismatch,
    /// More than one output pays the tweaked federation script.
    AmbiguousClaim,
}

/// A user's claim to a deposit: the depositing transaction, an SPV
/// proof of its inclusion, the paid output's index, and the claimant's
/// x-only public key, whose 32-byte serialization tweaked the script.
#[derive(Clone, Debug, PartialEq, Eq)]
pub struct PegInProof {
    pub txout_proof: TxOutProof,
    pub transaction: TxData,
    pub output_idx: u32,
    pub tweak_contract_key: [u8; 32],
}

/// How many of a transaction's outputs pay the given script.
pub open spec fn spec_count_outputs_paying(tx: crate::tx::TxDataView, script: Seq<u8>) -> int {
    tx.outputs.filter(|o: crate::tx::TxOutView| o.script_pubkey == script).len() as int
}

/// Whether a peg-in proof is valid against a descriptor: the proof
/// shows the transaction, the claimed output exists, and it is the one
/// and only output paying the descriptor tweaked by the claimed key.
pub open spec fn spec_peg_in_proof_valid(
    proof: PegInProofView,
    descriptor: PegInDescriptor,
) -> bool {
    &&& spec_proof_contains_tx(
        proof.txout_proof_header,
        proof.merkle_proof,
        txid_of(proof.transaction),
    )
    &&& proof.output_idx < proof.transaction.outputs.len()
    &&& spec_tweaked_script_pubkey(
        descriptor.threshold,
        key_views(descriptor.keys@),
        proof.tweak_contract_key,
    ) is Some
    &&& proof.transaction.outputs[proof.output_idx as int].script_pubkey
        == spec_tweaked_script_pubkey(
        descriptor.threshold,
        key_views(descriptor.keys@),
        proof.tweak_contract_key,
    ).unwrap()
    &&& spec_count_outputs_paying(
        proof.transaction,
        spec_tweaked_script_pubkey(
            descriptor.threshold,
            key_views(descriptor.keys@),
            proof.tweak_contract_key,
        ).unwrap(),
    ) == 1
}

pub ghost struct PegInProofView {
    pub txout_proof_header: BlockHeaderView,
    pub merkle_proof: Seq<u8>,
    pub transaction: crate::tx::TxDataView,
    pub output_idx: u32,
    pub tweak_contract_key: Seq<u8>,
}

impl View for PegInProof {
    type V = PegInProofView;

    open spec fn view(&self) -> PegInProofView {
        PegInProofView {
            txout_proof_header: self.txout_proof.block_header@,
            merkle_proof: self.txout_proof.merkle_proof@,
            transaction: self.transaction@,
            output_idx: self.output_idx,
            tweak_contract_key: self.tweak_contract_key@,
        }
    }
}

impl PegInProof {
    /// The hash of the block the proof claims inclusion in.
    pub fn proof_block(&self) -> (r: [u8; 32])
        ensures
            r@ == block_hash_of(self@.txout_proof_header),
    {
        self.txout_proof.block()
    }

    /// The outpoint being claimed.
    pub fn outpoint(&self) -> (r: BitcoinOutPoint)
        ensures
            r.txid@ == txid_of(self@.transaction),
            r.vout == self.output_idx,
    {
        BitcoinOutPoint { txid: tx_txid(&self.transaction), vout: self.output_idx }
    }

    /// The transaction output being claimed.
    pub fn tx_output(&self) -> (r: &TxOutData)
        requires
            self.output_idx < self@.transaction.outputs.len(),
        ensures
            r@ == self@.transaction.outputs[self.output_idx as int],
    {
        let out = &self.transaction.outputs[self.output_idx as usize];
        proof {
            assert(self@.transaction.outputs[self.output_idx as int] == self.transaction.outputs@[
                self.output_idx as int]@);
        }
        out
    }

    /// The key the deposit was tweaked with, which alone may claim it.
    pub fn tweak_contract_key(&self) -> (r: &[u8; 32])
        ensures
            r@ == self@.tweak_contract_key,
    {
        &self.tweak_contract_key
    }

    /// Checks the proof against the federation descriptor, exactly as
    /// validity is defined: the merkle branch shows the transaction,
    /// and the claimed output is the single output paying the tweaked
    /// script.
    pub fn verify(&self, descriptor: &PegInDescriptor) -> (r: Result<(), PegInProofError>)
        ensures
            r is Ok <==> spec_peg_in_proof_valid(self@, *descriptor),
    {
        let txid = tx_txid(&self.transaction);
        if !self.txout_proof.contains_tx(&txid) {
            return Err(PegInProofError::TransactionNotInProof);
        }
        let script = match descriptor.tweaked_script_pubkey(&self.tweak_contract_key) {
            Some(script) => script,
            None => {
                return Err(PegInProofError::ScriptDerivationFailed);
            },
        };
        if (self.output_idx as usize) >= self.transaction.outputs.len() {
            return Err(PegInProofError::OutputIndexOutOfRange);
        }
        let out = &self.transaction.outputs[self.output_idx as usize];
        proof {
            assert(self@.transaction.outputs[self.output_idx as int] == self.transaction.outputs@[
                self.output_idx as int]@);
        }
        if !bytes_vec_equal(&out.script_pubkey, &script) {
            return Err(PegInProofError::OutputScriptMismatch);
        }
        let mut count: u64 = 0;
        let mut i: usize = 0;
        proof {
            assert(self@.transaction.outputs.take(0).filter(
                |o: crate::tx::TxOutView| o.script_pubkey == script@,
            ) =~= Seq::<crate::tx::TxOutView>::empty());
        }
        while i < self.transaction.outputs.len()
            invariant
                i <= self.transaction.outputs@.len(),
                self@.transaction.outputs.len() == self.transaction.outputs@.len(),
                forall|j: int|
                    0 <= j < self.transaction.outputs@.len() ==> self@.transaction.outputs[j]
                        == self.transaction.outputs@[j]@,
                count == self@.transaction.outputs.take(i as int).filter(
                    |o: crate::tx::TxOutView| o.script_pubkey == script@,
                ).len(),
                count <= i,
            decreases self.transaction.outputs@.len() - i,
        {
            let ghost prefix = self@.transaction.outputs.take(i as int);
            proof {
                assert(self@.transaction.outputs.take(i + 1) =~= prefix.push(
                    self@.transaction.outputs[i as int],
                ));
                prefix.lemma_filter_push(
                    self@.transaction.outputs[i as int],
                    |o: crate::tx::TxOutView| o.script_pubkey == script@,
                );
            }
            if bytes_vec_equal(&self.transaction.outputs[i].script_pubkey, &script) {
                count = count + 1;
            }
            i += 1;
        }
        proof {
            assert(self@.transaction.outputs.take(self.transaction.outputs@.len() as int)
                =~= self@.transaction.outputs);
        }
        if count != 1 {
            return Err(PegInProofError::AmbiguousClaim);
        }
        Ok(())
    }
}

} // verus!
