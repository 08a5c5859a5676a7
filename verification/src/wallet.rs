//! The wallet module proper: the per-epoch consensus machine, peg-in
//! crediting, peg-out queueing and finalization, and the chain
//! follower. All state lives in a [`WalletDb`] value; the surrounding
//! host performs I/O (bitcoin RPC, persistence) and hands results in
//! as plain values.

use vstd::prelude::*;

use crate::config::WalletConfig;
use crate::db::{spec_assoc32_unique, WalletDb};
use crate::sort::spec_median_u64;
use crate::stateless::StatelessWallet;
use crate::types::{Feerate, PeerId};
use crate::{
    PegOutSignatureItem, PegOutSignatureItemView, RoundConsensus, RoundConsensusItem,
    SpendableUTXO, UnsignedTransaction, UnsignedTransactionView, WalletConsensusItem, WalletError,
};
use rand::RngCore;

verus! {

/// The failures that end an epoch instead of producing a round
/// consensus; both mean the federation itself is broken.
#[derive(Clone, Copy, Debug, PartialEq, Eq, Structural)]
pub enum EpochError {
    /// No peer submitted a round proposal this epoch.
    NoProposals,
    /// The median proposed height (first) fell below the consensus
    /// height (second); heights must never rewind.
    BlockHeightShrunk(u32, u32),
}

/// Relies on rand's `OsRng`: 32 bytes of operating-system randomness
/// for this peer's beacon contribution. Nothing is promised of the
/// outcome.
#[verifier::external_body]
pub(crate) fn os_random_32() -> (r: [u8; 32]) {
    let mut bytes = [0u8; 32];
    rand::rngs::OsRng.fill_bytes(&mut bytes);
    bytes
}

/// The byte-wise XOR of two 32-byte values.
pub open spec fn spec_xor32(a: Seq<u8>, b: Seq<u8>) -> Seq<u8> {
    Seq::new(32, |i: int| a[i] ^ b[i])
}

/// The XOR-combining step as a fold operator.
pub open spec fn spec_xor_step() -> spec_fn(Seq<u8>, Seq<u8>) -> Seq<u8> {
    |acc: Seq<u8>, x: Seq<u8>| spec_xor32(acc, x)
}

/// The all-zero 32-byte value.
pub open spec fn spec_zero32() -> Seq<u8> {
    Seq::new(32, |i: int| 0u8)
}

/// The randomness beacon: the byte-wise XOR of every contribution,
/// folded left over an all-zero start.
pub open spec fn spec_xor_fold(contributions: Seq<Seq<u8>>) -> Seq<u8> {
    contributions.fold_left(spec_zero32(), spec_xor_step())
}

/// The XOR fold ignores the order contributions arrive in: any two
/// deliveries of the same multiset of contributions produce the same
/// beacon.
pub proof fn lemma_xor_fold_reorder(s1: Seq<Seq<u8>>, s2: Seq<Seq<u8>>)
    requires
        s1.to_multiset() == s2.to_multiset(),
    ensures
        spec_xor_fold(s1) == spec_xor_fold(s2),
{
    let f = spec_xor_step();
    assert(vstd::seq_lib::commutative_foldl(f)) by {
        assert forall|x: Seq<u8>, y: Seq<u8>, v: Seq<u8>| #[trigger] f(f(v, x), y) == f(
            f(v, y),
            x,
        ) by {
            assert forall|i: int| 0 <= i < 32 implies #[trigger] spec_xor32(spec_xor32(v, x), y)[i]
                == spec_xor32(spec_xor32(v, y), x)[i] by {
                let a = v[i];
                let b = x[i];
                let c = y[i];
                assert((a ^ b) ^ c == (a ^ c) ^ b) by (bit_vector);
            }
            assert(f(f(v, x), y) =~= f(f(v, y), x));
        }
    }
    vstd::seq_lib::lemma_fold_left_permutation(s1, s2, f, spec_zero32());
}

/// The round proposals among delivered items, in delivery order.
pub open spec fn spec_round_items(items: Seq<(PeerId, WalletConsensusItem)>) -> Seq<
    (PeerId, RoundConsensusItem),
>
    decreases items.len(),
{
    if items.len() == 0 {
        Seq::empty()
    } else {
        let rest = spec_round_items(items.drop_first());
        match items[0].1 {
            WalletConsensusItem::RoundConsensus(rc) => seq![(items[0].0, rc)] + rest,
            WalletConsensusItem::PegOutSignature(_) => rest,
        }
    }
}

/// The peg-out signature items among delivered items, in delivery
/// order.
pub open spec fn spec_sig_items(items: Seq<(PeerId, WalletConsensusItem)>) -> Seq<
    (PeerId, PegOutSignatureItem),
>
    decreases items.len(),
{
    if items.len() == 0 {
        Seq::empty()
    } else {
        let rest = spec_sig_items(items.drop_first());
        match items[0].1 {
            WalletConsensusItem::RoundConsensus(_) => rest,
            WalletConsensusItem::PegOutSignature(sig) => seq![(items[0].0, sig)] + rest,
        }
    }
}

/// The proposed heights, widened for the median.
pub open spec fn spec_heights(rounds: Seq<(PeerId, RoundConsensusItem)>) -> Seq<u64> {
    rounds.map_values(|r: (PeerId, RoundConsensusItem)| r.1.block_height as u64)
}

/// The proposed fee rates, as sats per kilo-weight-unit.
pub open spec fn spec_fee_rates(rounds: Seq<(PeerId, RoundConsensusItem)>) -> Seq<u64> {
    rounds.map_values(|r: (PeerId, RoundConsensusItem)| r.1.fee_rate.sats_per_kvb)
}

/// The randomness contributions, in delivery order.
pub open spec fn spec_randomness_contributions(
    rounds: Seq<(PeerId, RoundConsensusItem)>,
) -> Seq<Seq<u8>> {
    rounds.map_values(|r: (PeerId, RoundConsensusItem)| r.1.randomness@)
}

/// The view of the queued-transaction table.
pub open spec fn spec_unsigned_table_view(s: Seq<([u8; 32], UnsignedTransaction)>) -> Seq<
    (Seq<u8>, UnsignedTransactionView),
> {
    s.map_values(|e: ([u8; 32], UnsignedTransaction)| (e.0@, e.1@))
}

/// Appends one delivered signature item to the queued transaction it
/// names; a table without that txid is unchanged.
pub open spec fn spec_append_sig(
    table: Seq<(Seq<u8>, UnsignedTransactionView)>,
    peer: PeerId,
    sig: PegOutSignatureItemView,
) -> Seq<(Seq<u8>, UnsignedTransactionView)> {
    Seq::new(
        table.len(),
        |i: int|
            if table[i].0 == sig.txid {
                (
                    table[i].0,
                    UnsignedTransactionView {
                        psbt: table[i].1.psbt,
                        signatures: table[i].1.signatures.push((peer, sig)),
                        change: table[i].1.change,
                        fees: table[i].1.fees,
                    },
                )
            } else {
                table[i]
            },
    )
}

/// Folds every delivered signature item into the table, in delivery
/// order.
pub open spec fn spec_save_sigs(
    table: Seq<(Seq<u8>, UnsignedTransactionView)>,
    sigs: Seq<(PeerId, PegOutSignatureItemView)>,
) -> Seq<(Seq<u8>, UnsignedTransactionView)>
    decreases sigs.len(),
{
    if sigs.len() == 0 {
        table
    } else {
        spec_save_sigs(spec_append_sig(table, sigs[0].0, sigs[0].1), sigs.drop_first())
    }
}

/// Whether a peer's signature item fully checks out against a PSBT:
/// one signature per input, and for every input the peer's tweaked key
/// derives, the signature verifies against that input's sighash, and
/// no signature under that key was collected yet.
pub open spec fn spec_peer_sign_ok(
    peer_pk: Seq<u8>,
    psbt: crate::psbt::PsbtView,
    item: crate::PegOutSignatureItemView,
) -> bool {
    &&& item.signature.len() == psbt.inputs.len()
    &&& psbt.inputs.len() <= psbt.unsigned_tx.inputs.len()
    &&& forall|i: int|
        0 <= i < psbt.inputs.len() ==> (#[trigger] crate::keys::spec_tweaked_public_key(
            peer_pk,
            psbt.inputs[i].tweak,
        )) is Some
    &&& forall|i: int|
        0 <= i < psbt.inputs.len() ==> crate::keys::ecdsa_sig_valid(
            crate::keys::spec_tweaked_public_key(peer_pk, #[trigger] psbt.inputs[i].tweak).unwrap(),
            crate::stateless::spec_input_sighash(psbt, i),
            item.signature[i],
        )
    &&& forall|i: int|
        0 <= i < psbt.inputs.len() ==> !crate::psbt::spec_has_sig_key(
            #[trigger] psbt.inputs[i].partial_sigs,
            crate::keys::spec_tweaked_public_key(peer_pk, psbt.inputs[i].tweak).unwrap(),
        )
}

/// A PSBT after one peer's item was accepted: every input gains that
/// peer's signature under its tweaked key.
pub open spec fn spec_peer_signed_psbt(
    peer_pk: Seq<u8>,
    psbt: crate::psbt::PsbtView,
    item: crate::PegOutSignatureItemView,
) -> crate::psbt::PsbtView {
    crate::psbt::PsbtView {
        unsigned_tx: psbt.unsigned_tx,
        inputs: Seq::new(
            psbt.inputs.len(),
            |i: int|
                crate::psbt::PsbtInputView {
                    witness_utxo: psbt.inputs[i].witness_utxo,
                    witness_script: psbt.inputs[i].witness_script,
                    tweak: psbt.inputs[i].tweak,
                    partial_sigs: psbt.inputs[i].partial_sigs.push(
                        (
                            crate::keys::spec_tweaked_public_key(
                                peer_pk,
                                psbt.inputs[i].tweak,
                            ).unwrap(),
                            item.signature[i],
                        ),
                    ),
                },
        ),
        outputs: psbt.outputs,
    }
}

/// Folds delivered items into a PSBT, in delivery order: each item is
/// accepted (its signatures recorded, its peer credited) exactly where
/// the peer is known and the item fully checks out against the PSBT as
/// accumulated so far.
pub open spec fn spec_process_sigs(
    keys: Seq<(PeerId, [u8; 33])>,
    psbt: crate::psbt::PsbtView,
    sigs: Seq<(PeerId, crate::PegOutSignatureItemView)>,
) -> (crate::psbt::PsbtView, Set<PeerId>)
    decreases sigs.len(),
{
    if sigs.len() == 0 {
        (psbt, Set::empty())
    } else {
        let peer = sigs[0].0;
        let item = sigs[0].1;
        match crate::config::spec_peer_key(keys, peer) {
            Some(pk) => if spec_peer_sign_ok(pk@, psbt, item) {
                let rest = spec_process_sigs(
                    keys,
                    spec_peer_signed_psbt(pk@, psbt, item),
                    sigs.drop_first(),
                );
                (rest.0, rest.1.insert(peer))
            } else {
                spec_process_sigs(keys, psbt, sigs.drop_first())
            },
            None => spec_process_sigs(keys, psbt, sigs.drop_first()),
        }
    }
}

/// Whether, for every input, distinct known peers have distinct
/// tweaked keys there (two peers sharing a public key would collide).
pub open spec fn spec_distinct_tweaked_keys(
    keys: Seq<(PeerId, [u8; 33])>,
    psbt: crate::psbt::PsbtView,
) -> bool {
    forall|p: PeerId, q: PeerId, i: int|
        p != q && 0 <= i < psbt.inputs.len() && crate::config::spec_peer_key(keys, p) is Some
            && crate::config::spec_peer_key(keys, q) is Some
            && (#[trigger] spec_peer_input_key(keys, psbt, p, i)) is Some
            && (#[trigger] spec_peer_input_key(keys, psbt, q, i)) is Some
            ==> spec_peer_input_key(keys, psbt, p, i) != spec_peer_input_key(keys, psbt, q, i)
}

/// A peer's tweaked key on one input, if both derive.
pub open spec fn spec_peer_input_key(
    keys: Seq<(PeerId, [u8; 33])>,
    psbt: crate::psbt::PsbtView,
    p: PeerId,
    i: int,
) -> Option<Seq<u8>> {
    match crate::config::spec_peer_key(keys, p) {
        Some(pk) => crate::keys::spec_tweaked_public_key(pk@, psbt.inputs[i].tweak),
        None => None,
    }
}

/// Whether a delivered item is acceptable on its own merits, judged
/// against the starting PSBT: the peer is known and the item fully
/// checks out there.
pub open spec fn spec_item_intrinsically_valid(
    keys: Seq<(PeerId, [u8; 33])>,
    psbt0: crate::psbt::PsbtView,
    entry: (PeerId, crate::PegOutSignatureItemView),
) -> bool {
    match crate::config::spec_peer_key(keys, entry.0) {
        Some(pk) => spec_peer_sign_ok(pk@, psbt0, entry.1),
        None => false,
    }
}

/// Whether a signature key is some accepted peer's tweaked key on the
/// given input.
pub open spec fn spec_key_of_accepted(
    keys: Seq<(PeerId, [u8; 33])>,
    psbt0: crate::psbt::PsbtView,
    a: Set<PeerId>,
    key: Seq<u8>,
    i: int,
) -> bool {
    exists|s: PeerId|
        a.contains(s) && (#[trigger] spec_peer_input_key(keys, psbt0, s, i)) is Some && key
            == spec_peer_input_key(keys, psbt0, s, i).unwrap()
}

/// Whether `p` is the starting PSBT extended exactly by the accepted
/// peers of `a`: all witness data unchanged, the original signatures
/// kept in place, every added signature keyed by some accepted peer's
/// tweaked key, and every accepted peer's tweaked key present on
/// every input.
pub open spec fn spec_psbt_extended_by(
    psbt0: crate::psbt::PsbtView,
    p: crate::psbt::PsbtView,
    keys: Seq<(PeerId, [u8; 33])>,
    a: Set<PeerId>,
) -> bool {
    &&& p.unsigned_tx == psbt0.unsigned_tx
    &&& p.outputs == psbt0.outputs
    &&& p.inputs.len() == psbt0.inputs.len()
    &&& forall|i: int|
        0 <= i < psbt0.inputs.len() ==> {
            let after = #[trigger] p.inputs[i];
            &&& after.witness_utxo == psbt0.inputs[i].witness_utxo
            &&& after.witness_script == psbt0.inputs[i].witness_script
            &&& after.tweak == psbt0.inputs[i].tweak
            &&& spec_sigs_extend(psbt0.inputs[i].partial_sigs, after.partial_sigs)
        }
    &&& forall|i: int, e: int|
        0 <= i < psbt0.inputs.len() && psbt0.inputs[i].partial_sigs.len() <= e
            < p.inputs[i].partial_sigs.len() ==> spec_key_of_accepted(
            keys,
            psbt0,
            a,
            (#[trigger] p.inputs[i].partial_sigs[e]).0,
            i,
        )
    &&& forall|s: PeerId, i: int|
        a.contains(s) && 0 <= i < psbt0.inputs.len() ==> (#[trigger] spec_peer_input_key(
            keys,
            psbt0,
            s,
            i,
        )) is Some && crate::psbt::spec_has_sig_key(
            p.inputs[i].partial_sigs,
            spec_peer_input_key(keys, psbt0, s, i).unwrap(),
        )
}

/// At an extension of the starting PSBT by accepted peers `a`, an
/// item checks out exactly where it checks out against the start and
/// its peer was not accepted yet — distinct tweaked keys keep other
/// peers' signatures from tripping the duplicate check.
proof fn lemma_sign_ok_at_extension(
    keys: Seq<(PeerId, [u8; 33])>,
    psbt0: crate::psbt::PsbtView,
    p: crate::psbt::PsbtView,
    a: Set<PeerId>,
    peer: PeerId,
    pk: [u8; 33],
    item: crate::PegOutSignatureItemView,
)
    requires
        psbt0.inputs.len() > 0,
        spec_distinct_tweaked_keys(keys, psbt0),
        spec_psbt_extended_by(psbt0, p, keys, a),
        crate::config::spec_peer_key(keys, peer) == Some(pk),
    ensures
        spec_peer_sign_ok(pk@, p, item) <==> (spec_peer_sign_ok(pk@, psbt0, item)
            && !a.contains(peer)),
{
    assert forall|i: int| 0 <= i < psbt0.inputs.len() implies crate::stateless::spec_input_sighash(
        p,
        i,
    ) == crate::stateless::spec_input_sighash(psbt0, i) by {
        assert(p.inputs[i].witness_script == psbt0.inputs[i].witness_script);
        assert(p.inputs[i].witness_utxo == psbt0.inputs[i].witness_utxo);
    }
    if spec_peer_sign_ok(pk@, p, item) {
        // Tweak derivations, counts and sighashes agree, so the item
        // checks out at the start too; and an accepted peer's key is
        // present, which the duplicate check would have caught.
        assert forall|i: int| 0 <= i < psbt0.inputs.len() implies !crate::psbt::spec_has_sig_key(
            #[trigger] psbt0.inputs[i].partial_sigs,
            crate::keys::spec_tweaked_public_key(pk@, psbt0.inputs[i].tweak).unwrap(),
        ) by {
            let tk = crate::keys::spec_tweaked_public_key(pk@, psbt0.inputs[i].tweak).unwrap();
            if crate::psbt::spec_has_sig_key(psbt0.inputs[i].partial_sigs, tk) {
                let e = choose|e: int|
                    0 <= e < psbt0.inputs[i].partial_sigs.len() && psbt0.inputs[
                    i].partial_sigs[e].0 == tk;
                assert(p.inputs[i].partial_sigs[e] == psbt0.inputs[i].partial_sigs[e]);
                assert(crate::psbt::spec_has_sig_key(p.inputs[i].partial_sigs, tk));
                assert(!crate::psbt::spec_has_sig_key(
                    p.inputs[i].partial_sigs,
                    crate::keys::spec_tweaked_public_key(pk@, p.inputs[i].tweak).unwrap(),
                ));
                assert(false);
            }
        }
        if a.contains(peer) {
            assert(spec_peer_input_key(keys, psbt0, peer, 0) is Some);
            assert(crate::psbt::spec_has_sig_key(
                p.inputs[0].partial_sigs,
                spec_peer_input_key(keys, psbt0, peer, 0).unwrap(),
            ));
            assert(p.inputs[0].tweak == psbt0.inputs[0].tweak);
            assert(!crate::psbt::spec_has_sig_key(
                p.inputs[0].partial_sigs,
                crate::keys::spec_tweaked_public_key(pk@, p.inputs[0].tweak).unwrap(),
            ));
            assert(false);
        }
        assert forall|i: int|
            0 <= i < psbt0.inputs.len() implies (#[trigger] crate::keys::spec_tweaked_public_key(
            pk@,
            psbt0.inputs[i].tweak,
        )) is Some && crate::keys::ecdsa_sig_valid(
            crate::keys::spec_tweaked_public_key(pk@, psbt0.inputs[i].tweak).unwrap(),
            crate::stateless::spec_input_sighash(psbt0, i),
            item.signature[i],
        ) by {
            assert(psbt0.inputs[i].tweak == p.inputs[i].tweak);
            assert(crate::keys::spec_tweaked_public_key(pk@, p.inputs[i].tweak) is Some);
            assert(crate::keys::ecdsa_sig_valid(
                crate::keys::spec_tweaked_public_key(pk@, p.inputs[i].tweak).unwrap(),
                crate::stateless::spec_input_sighash(p, i),
                item.signature[i],
            ));
        }
        assert(spec_peer_sign_ok(pk@, psbt0, item));
    }
    if spec_peer_sign_ok(pk@, psbt0, item) && !a.contains(peer) {
        assert forall|i: int| 0 <= i < psbt0.inputs.len() implies !crate::psbt::spec_has_sig_key(
            #[trigger] p.inputs[i].partial_sigs,
            crate::keys::spec_tweaked_public_key(pk@, p.inputs[i].tweak).unwrap(),
        ) by {
            assert(p.inputs[i].tweak == psbt0.inputs[i].tweak);
            let tk = crate::keys::spec_tweaked_public_key(pk@, psbt0.inputs[i].tweak).unwrap();
            assert(tk == spec_peer_input_key(keys, psbt0, peer, i).unwrap());
            if crate::psbt::spec_has_sig_key(p.inputs[i].partial_sigs, tk) {
                let e = choose|e: int|
                    0 <= e < p.inputs[i].partial_sigs.len() && p.inputs[i].partial_sigs[e].0
                        == tk;
                if e < psbt0.inputs[i].partial_sigs.len() {
                    assert(p.inputs[i].partial_sigs[e] == psbt0.inputs[i].partial_sigs[e]);
                    assert(crate::psbt::spec_has_sig_key(psbt0.inputs[i].partial_sigs, tk));
                    assert(false);
                } else {
                    assert(spec_key_of_accepted(
                        keys,
                        psbt0,
                        a,
                        p.inputs[i].partial_sigs[e].0,
                        i,
                    ));
                    let s = choose|s: PeerId|
                        a.contains(s) && (#[trigger] spec_peer_input_key(keys, psbt0, s, i))
                            is Some && p.inputs[i].partial_sigs[e].0 == spec_peer_input_key(
                            keys,
                            psbt0,
                            s,
                            i,
                        ).unwrap();
                    assert(s != peer);
                    assert(spec_peer_input_key(keys, psbt0, peer, i) is Some);
                    assert(spec_peer_input_key(keys, psbt0, s, i) != spec_peer_input_key(
                        keys,
                        psbt0,
                        peer,
                        i,
                    ));
                    assert(false);
                }
            }
        }
        assert forall|i: int|
            0 <= i < p.inputs.len() implies (#[trigger] crate::keys::spec_tweaked_public_key(
            pk@,
            p.inputs[i].tweak,
        )) is Some && crate::keys::ecdsa_sig_valid(
            crate::keys::spec_tweaked_public_key(pk@, p.inputs[i].tweak).unwrap(),
            crate::stateless::spec_input_sighash(p, i),
            item.signature[i],
        ) by {
            assert(p.inputs[i].tweak == psbt0.inputs[i].tweak);
            assert(crate::keys::spec_tweaked_public_key(pk@, psbt0.inputs[i].tweak) is Some);
            assert(crate::keys::ecdsa_sig_valid(
                crate::keys::spec_tweaked_public_key(pk@, psbt0.inputs[i].tweak).unwrap(),
                crate::stateless::spec_input_sighash(psbt0, i),
                item.signature[i],
            ));
        }
        assert(spec_peer_sign_ok(pk@, p, item));
    }
}

/// Accepting one item extends the accepted set by its peer.
#[verifier::rlimit(100)]
proof fn lemma_extension_step(
    keys: Seq<(PeerId, [u8; 33])>,
    psbt0: crate::psbt::PsbtView,
    p: crate::psbt::PsbtView,
    a: Set<PeerId>,
    peer: PeerId,
    pk: [u8; 33],
    item: crate::PegOutSignatureItemView,
)
    requires
        spec_psbt_extended_by(psbt0, p, keys, a),
        crate::config::spec_peer_key(keys, peer) == Some(pk),
        spec_peer_sign_ok(pk@, p, item),
    ensures
        spec_psbt_extended_by(
            psbt0,
            spec_peer_signed_psbt(pk@, p, item),
            keys,
            a.insert(peer),
        ),
{
    let signed = spec_peer_signed_psbt(pk@, p, item);
    assert forall|i: int| 0 <= i < psbt0.inputs.len() implies {
        let after = #[trigger] signed.inputs[i];
        &&& after.witness_utxo == psbt0.inputs[i].witness_utxo
        &&& after.witness_script == psbt0.inputs[i].witness_script
        &&& after.tweak == psbt0.inputs[i].tweak
        &&& spec_sigs_extend(psbt0.inputs[i].partial_sigs, after.partial_sigs)
    } by {
        assert(signed.inputs[i].partial_sigs == p.inputs[i].partial_sigs.push(
            (
                crate::keys::spec_tweaked_public_key(pk@, p.inputs[i].tweak).unwrap(),
                item.signature[i],
            ),
        ));
        assert forall|k: int|
            0 <= k < psbt0.inputs[i].partial_sigs.len()
                implies #[trigger] signed.inputs[i].partial_sigs[k] == psbt0.inputs[
            i].partial_sigs[k] by {
            assert(signed.inputs[i].partial_sigs[k] == p.inputs[i].partial_sigs[k]);
        }
    }
    assert forall|i: int, e: int|
        0 <= i < psbt0.inputs.len() && psbt0.inputs[i].partial_sigs.len() <= e
            < signed.inputs[i].partial_sigs.len() implies spec_key_of_accepted(
        keys,
        psbt0,
        a.insert(peer),
        (#[trigger] signed.inputs[i].partial_sigs[e]).0,
        i,
    ) by {
        if e < p.inputs[i].partial_sigs.len() {
            assert(signed.inputs[i].partial_sigs[e] == p.inputs[i].partial_sigs[e]);
            assert((#[trigger] p.inputs[i].partial_sigs[e]).0 == p.inputs[i].partial_sigs[e].0);
            assert(spec_key_of_accepted(keys, psbt0, a, p.inputs[i].partial_sigs[e].0, i));
            let s = choose|s: PeerId|
                a.contains(s) && (#[trigger] spec_peer_input_key(keys, psbt0, s, i)) is Some
                    && p.inputs[i].partial_sigs[e].0 == spec_peer_input_key(
                    keys,
                    psbt0,
                    s,
                    i,
                ).unwrap();
            assert(a.insert(peer).contains(s));
            assert(spec_key_of_accepted(
                keys,
                psbt0,
                a.insert(peer),
                signed.inputs[i].partial_sigs[e].0,
                i,
            ));
        } else {
            assert(signed.inputs[i].partial_sigs.len() == p.inputs[i].partial_sigs.len() + 1);
            assert(e == p.inputs[i].partial_sigs.len());
            assert(signed.inputs[i].partial_sigs[e].0 == crate::keys::spec_tweaked_public_key(
                pk@,
                p.inputs[i].tweak,
            ).unwrap());
            assert(p.inputs[i].tweak == psbt0.inputs[i].tweak);
            assert(crate::keys::spec_tweaked_public_key(pk@, p.inputs[i].tweak) is Some);
            assert(spec_peer_input_key(keys, psbt0, peer, i) is Some);
            assert(signed.inputs[i].partial_sigs[e].0 == spec_peer_input_key(
                keys,
                psbt0,
                peer,
                i,
            ).unwrap());
            assert(a.insert(peer).contains(peer));
            assert(spec_key_of_accepted(
                keys,
                psbt0,
                a.insert(peer),
                signed.inputs[i].partial_sigs[e].0,
                i,
            ));
        }
    }
    assert forall|s: PeerId, i: int|
        a.insert(peer).contains(s) && 0 <= i < psbt0.inputs.len() implies (
        #[trigger] spec_peer_input_key(keys, psbt0, s, i)) is Some
        && crate::psbt::spec_has_sig_key(
        signed.inputs[i].partial_sigs,
        spec_peer_input_key(keys, psbt0, s, i).unwrap(),
    ) by {
        if s == peer {
            assert(p.inputs[i].tweak == psbt0.inputs[i].tweak);
            assert(crate::keys::spec_tweaked_public_key(pk@, p.inputs[i].tweak) is Some);
            assert(spec_peer_input_key(keys, psbt0, peer, i) is Some);
            let e = signed.inputs[i].partial_sigs.len() - 1;
            assert(signed.inputs[i].partial_sigs[e].0 == crate::keys::spec_tweaked_public_key(
                pk@,
                p.inputs[i].tweak,
            ).unwrap());
            assert(signed.inputs[i].partial_sigs[e].0 == spec_peer_input_key(
                keys,
                psbt0,
                peer,
                i,
            ).unwrap());
            assert(crate::psbt::spec_has_sig_key(
                signed.inputs[i].partial_sigs,
                spec_peer_input_key(keys, psbt0, peer, i).unwrap(),
            ));
        } else {
            assert(a.contains(s));
            let tk = spec_peer_input_key(keys, psbt0, s, i).unwrap();
            assert(crate::psbt::spec_has_sig_key(p.inputs[i].partial_sigs, tk));
            let e = choose|e: int|
                0 <= e < p.inputs[i].partial_sigs.len() && p.inputs[i].partial_sigs[e].0 == tk;
            assert(signed.inputs[i].partial_sigs[e] == p.inputs[i].partial_sigs[e]);
            assert(crate::psbt::spec_has_sig_key(signed.inputs[i].partial_sigs, tk));
        }
    }
}

/// At any reachable extension, the remaining items accept exactly the
/// not-yet-accepted peers with an intrinsically valid item.
proof fn lemma_signers_intrinsic(
    keys: Seq<(PeerId, [u8; 33])>,
    psbt0: crate::psbt::PsbtView,
    p: crate::psbt::PsbtView,
    a: Set<PeerId>,
    sigs: Seq<(PeerId, crate::PegOutSignatureItemView)>,
)
    requires
        psbt0.inputs.len() > 0,
        spec_distinct_tweaked_keys(keys, psbt0),
        spec_psbt_extended_by(psbt0, p, keys, a),
    ensures
        forall|q: PeerId| #[trigger] spec_process_sigs(keys, p, sigs).1.contains(q) <==> (
        !a.contains(q) && exists|j: int|
            0 <= j < sigs.len() && (#[trigger] sigs[j]).0 == q && spec_item_intrinsically_valid(
                keys,
                psbt0,
                sigs[j],
            )),
    decreases sigs.len(),
{
    if sigs.len() == 0 {
        assert(spec_process_sigs(keys, p, sigs).1 =~= Set::<PeerId>::empty());
    } else {
        let peer = sigs[0].0;
        let item = sigs[0].1;
        let rest = sigs.drop_first();
        let outcome = spec_process_sigs(keys, p, sigs);
        assert forall|j: int| 1 <= j < sigs.len() implies #[trigger] sigs[j] == rest[j - 1] by {}
        match crate::config::spec_peer_key(keys, peer) {
            Some(pk) => {
                lemma_sign_ok_at_extension(keys, psbt0, p, a, peer, pk, item);
                if spec_peer_sign_ok(pk@, p, item) {
                    let signed = spec_peer_signed_psbt(pk@, p, item);
                    lemma_extension_step(keys, psbt0, p, a, peer, pk, item);
                    lemma_signers_intrinsic(keys, psbt0, signed, a.insert(peer), rest);
                    let inner = spec_process_sigs(keys, signed, rest);
                    assert(outcome.1 == inner.1.insert(peer));
                    assert forall|q: PeerId| #[trigger] outcome.1.contains(q) <==> (!a.contains(
                        q,
                    ) && exists|j: int|
                        0 <= j < sigs.len() && (#[trigger] sigs[j]).0 == q
                            && spec_item_intrinsically_valid(keys, psbt0, sigs[j])) by {
                        if q == peer {
                            assert(outcome.1.contains(peer));
                            assert(sigs[0].0 == peer && spec_item_intrinsically_valid(
                                keys,
                                psbt0,
                                sigs[0],
                            ));
                            assert(!a.contains(peer));
                        } else {
                            assert(outcome.1.contains(q) <==> inner.1.contains(q));
                            if inner.1.contains(q) {
                                let j = choose|j: int|
                                    0 <= j < rest.len() && (#[trigger] rest[j]).0 == q
                                        && spec_item_intrinsically_valid(keys, psbt0, rest[j]);
                                assert(sigs[j + 1] == rest[j]);
                            }
                            if !a.contains(q) && exists|j: int|
                                0 <= j < sigs.len() && (#[trigger] sigs[j]).0 == q
                                    && spec_item_intrinsically_valid(keys, psbt0, sigs[j]) {
                                let j = choose|j: int|
                                    0 <= j < sigs.len() && (#[trigger] sigs[j]).0 == q
                                        && spec_item_intrinsically_valid(keys, psbt0, sigs[j]);
                                assert(j >= 1);
                                assert(rest[j - 1] == sigs[j]);
                                assert(!a.insert(peer).contains(q));
                            }
                        }
                    }
                } else {
                    lemma_signers_intrinsic(keys, psbt0, p, a, rest);
                    assert(outcome == spec_process_sigs(keys, p, rest));
                    assert forall|q: PeerId| #[trigger] outcome.1.contains(q) <==> (!a.contains(
                        q,
                    ) && exists|j: int|
                        0 <= j < sigs.len() && (#[trigger] sigs[j]).0 == q
                            && spec_item_intrinsically_valid(keys, psbt0, sigs[j])) by {
                        if outcome.1.contains(q) {
                            let j = choose|j: int|
                                0 <= j < rest.len() && (#[trigger] rest[j]).0 == q
                                    && spec_item_intrinsically_valid(keys, psbt0, rest[j]);
                            assert(sigs[j + 1] == rest[j]);
                        }
                        if !a.contains(q) && exists|j: int|
                            0 <= j < sigs.len() && (#[trigger] sigs[j]).0 == q
                                && spec_item_intrinsically_valid(keys, psbt0, sigs[j]) {
                            let j = choose|j: int|
                                0 <= j < sigs.len() && (#[trigger] sigs[j]).0 == q
                                    && spec_item_intrinsically_valid(keys, psbt0, sigs[j]);
                            if j == 0 {
                                // The head item is intrinsically valid
                                // and its peer unaccepted, so it would
                                // have been accepted: contradiction.
                                assert(q == peer);
                                assert(spec_peer_sign_ok(pk@, psbt0, item) && !a.contains(peer));
                                assert(false);
                            } else {
                                assert(rest[j - 1] == sigs[j]);
                            }
                        }
                    }
                }
            },
            None => {
                lemma_signers_intrinsic(keys, psbt0, p, a, rest);
                assert(outcome == spec_process_sigs(keys, p, rest));
                assert forall|q: PeerId| #[trigger] outcome.1.contains(q) <==> (!a.contains(q)
                    && exists|j: int|
                    0 <= j < sigs.len() && (#[trigger] sigs[j]).0 == q
                        && spec_item_intrinsically_valid(keys, psbt0, sigs[j])) by {
                    if outcome.1.contains(q) {
                        let j = choose|j: int|
                            0 <= j < rest.len() && (#[trigger] rest[j]).0 == q
                                && spec_item_intrinsically_valid(keys, psbt0, rest[j]);
                        assert(sigs[j + 1] == rest[j]);
                    }
                    if !a.contains(q) && exists|j: int|
                        0 <= j < sigs.len() && (#[trigger] sigs[j]).0 == q
                            && spec_item_intrinsically_valid(keys, psbt0, sigs[j]) {
                        let j = choose|j: int|
                            0 <= j < sigs.len() && (#[trigger] sigs[j]).0 == q
                                && spec_item_intrinsically_valid(keys, psbt0, sigs[j]);
                        if j == 0 {
                            assert(false);
                        } else {
                            assert(rest[j - 1] == sigs[j]);
                        }
                    }
                }
            },
        }
    }
}

/// Law: the signers set does not depend on delivery order. Two
/// deliveries of the same multiset of signature items to the same
/// starting PSBT accept exactly the same peers, provided distinct
/// known peers have distinct tweaked keys on every input (two peers
/// sharing a key could race for the duplicate check).
pub proof fn lemma_signers_order_independent(
    keys: Seq<(PeerId, [u8; 33])>,
    psbt0: crate::psbt::PsbtView,
    sigs1: Seq<(PeerId, crate::PegOutSignatureItemView)>,
    sigs2: Seq<(PeerId, crate::PegOutSignatureItemView)>,
)
    requires
        psbt0.inputs.len() > 0,
        spec_distinct_tweaked_keys(keys, psbt0),
        sigs1.to_multiset() == sigs2.to_multiset(),
    ensures
        spec_process_sigs(keys, psbt0, sigs1).1 == spec_process_sigs(keys, psbt0, sigs2).1,
{
    broadcast use vstd::seq_lib::group_to_multiset_ensures;

    assert(spec_psbt_extended_by(psbt0, psbt0, keys, Set::empty())) by {
        assert forall|i: int| 0 <= i < psbt0.inputs.len() implies {
            let after = #[trigger] psbt0.inputs[i];
            &&& after.witness_utxo == psbt0.inputs[i].witness_utxo
            &&& after.witness_script == psbt0.inputs[i].witness_script
            &&& after.tweak == psbt0.inputs[i].tweak
            &&& spec_sigs_extend(psbt0.inputs[i].partial_sigs, after.partial_sigs)
        } by {}
    }
    lemma_signers_intrinsic(keys, psbt0, psbt0, Set::empty(), sigs1);
    lemma_signers_intrinsic(keys, psbt0, psbt0, Set::empty(), sigs2);
    assert forall|q: PeerId| #[trigger] spec_process_sigs(keys, psbt0, sigs1).1.contains(q)
        <==> spec_process_sigs(keys, psbt0, sigs2).1.contains(q) by {
        if exists|j: int|
            0 <= j < sigs1.len() && (#[trigger] sigs1[j]).0 == q
                && spec_item_intrinsically_valid(keys, psbt0, sigs1[j]) {
            let j = choose|j: int|
                0 <= j < sigs1.len() && (#[trigger] sigs1[j]).0 == q
                    && spec_item_intrinsically_valid(keys, psbt0, sigs1[j]);
            assert(sigs1.contains(sigs1[j]));
            assert(sigs1.to_multiset().count(sigs1[j]) > 0);
            assert(sigs2.to_multiset().count(sigs1[j]) > 0);
            assert(sigs2.contains(sigs1[j]));
            let j2 = choose|j2: int| 0 <= j2 < sigs2.len() && sigs2[j2] == sigs1[j];
            assert((#[trigger] sigs2[j2]).0 == q && spec_item_intrinsically_valid(
                keys,
                psbt0,
                sigs2[j2],
            ));
        }
        if exists|j: int|
            0 <= j < sigs2.len() && (#[trigger] sigs2[j]).0 == q
                && spec_item_intrinsically_valid(keys, psbt0, sigs2[j]) {
            let j = choose|j: int|
                0 <= j < sigs2.len() && (#[trigger] sigs2[j]).0 == q
                    && spec_item_intrinsically_valid(keys, psbt0, sigs2[j]);
            assert(sigs2.contains(sigs2[j]));
            assert(sigs2.to_multiset().count(sigs2[j]) > 0);
            assert(sigs1.to_multiset().count(sigs2[j]) > 0);
            assert(sigs1.contains(sigs2[j]));
            let j1 = choose|j1: int| 0 <= j1 < sigs1.len() && sigs1[j1] == sigs2[j];
            assert((#[trigger] sigs1[j1]).0 == q && spec_item_intrinsically_valid(
                keys,
                psbt0,
                sigs1[j1],
            ));
        }
    }
    assert(spec_process_sigs(keys, psbt0, sigs1).1 =~= spec_process_sigs(keys, psbt0, sigs2).1);
}

/// The peers whose contributions for one queued transaction were
/// accepted.
pub open spec fn spec_tx_signers(
    keys: Seq<(PeerId, [u8; 33])>,
    unsigned: UnsignedTransactionView,
) -> Set<PeerId> {
    spec_process_sigs(keys, unsigned.psbt, unsigned.signatures).1
}

/// What may happen to one queued transaction over an epoch's end:
/// either it survives in the queue unchanged with its published
/// signature item untouched, or (having had signatures delivered) it
/// left the queue, its published item is retired, and the pending
/// table carries its unsigned transaction, change and change tweak.
pub open spec fn spec_epoch_transition(
    entry: ([u8; 32], UnsignedTransaction),
    unsigned: Seq<([u8; 32], UnsignedTransaction)>,
    pending: Seq<([u8; 32], crate::PendingTransaction)>,
    items_old: Seq<([u8; 32], Vec<[u8; 64]>)>,
    items: Seq<([u8; 32], Vec<[u8; 64]>)>,
) -> bool {
    ||| ((exists|i: int|
        0 <= i < unsigned.len() && (#[trigger] unsigned[i]).0@ == entry.0@ && unsigned[i].1@
            == entry.1@) && crate::db::spec_assoc32_get(items, entry.0@)
        == crate::db::spec_assoc32_get(items_old, entry.0@))
    ||| (entry.1@.signatures.len() > 0 && !crate::db::spec_assoc32_contains(unsigned, entry.0@)
        && crate::db::spec_assoc32_get(items, entry.0@) is None && match crate::db::spec_assoc32_get(
        pending,
        entry.0@,
    ) {
        Some(p) => p@.tx == entry.1@.psbt.unsigned_tx && p@.change == entry.1@.change && Some(
            p@.tweak,
        ) == crate::psbt::spec_first_output_tweak(entry.1@.psbt.outputs),
        None => false,
    })
}

/// Whether a key belongs to none of a table's entries.
pub open spec fn spec_outside_queue(
    table0: Seq<([u8; 32], UnsignedTransaction)>,
    q: Seq<u8>,
) -> bool {
    forall|j: int| 0 <= j < table0.len() ==> (#[trigger] table0[j]).0@ != q
}

/// Whether one signature list extends another: the longer one begins
/// with the shorter.
pub open spec fn spec_sigs_extend(a: Seq<(Seq<u8>, Seq<u8>)>, b: Seq<(Seq<u8>, Seq<u8>)>) -> bool {
    a.len() <= b.len() && forall|k: int| 0 <= k < a.len() ==> #[trigger] b[k] == a[k]
}

/// Folding signature items into a PSBT never touches its unsigned
/// transaction, its outputs, or any input's witness data and tweak;
/// it only ever appends to the collected signatures.
pub proof fn lemma_process_sigs_preserves(
    keys: Seq<(PeerId, [u8; 33])>,
    psbt: crate::psbt::PsbtView,
    sigs: Seq<(PeerId, crate::PegOutSignatureItemView)>,
)
    ensures
        spec_process_sigs(keys, psbt, sigs).0.unsigned_tx == psbt.unsigned_tx,
        spec_process_sigs(keys, psbt, sigs).0.outputs == psbt.outputs,
        spec_process_sigs(keys, psbt, sigs).0.inputs.len() == psbt.inputs.len(),
        forall|i: int|
            0 <= i < psbt.inputs.len() ==> {
                let after = #[trigger] spec_process_sigs(keys, psbt, sigs).0.inputs[i];
                &&& after.witness_utxo == psbt.inputs[i].witness_utxo
                &&& after.witness_script == psbt.inputs[i].witness_script
                &&& after.tweak == psbt.inputs[i].tweak
                &&& spec_sigs_extend(psbt.inputs[i].partial_sigs, after.partial_sigs)
            },
    decreases sigs.len(),
{
    if sigs.len() == 0 {
    } else {
        let peer = sigs[0].0;
        let item = sigs[0].1;
        match crate::config::spec_peer_key(keys, peer) {
            Some(pk) => {
                if spec_peer_sign_ok(pk@, psbt, item) {
                    let signed = spec_peer_signed_psbt(pk@, psbt, item);
                    lemma_process_sigs_preserves(keys, signed, sigs.drop_first());
                    assert forall|i: int| 0 <= i < psbt.inputs.len() implies {
                        let after = #[trigger] spec_process_sigs(keys, psbt, sigs).0.inputs[i];
                        &&& after.witness_utxo == psbt.inputs[i].witness_utxo
                        &&& after.witness_script == psbt.inputs[i].witness_script
                        &&& after.tweak == psbt.inputs[i].tweak
                        &&& spec_sigs_extend(psbt.inputs[i].partial_sigs, after.partial_sigs)
                    } by {
                        assert(signed.inputs[i].witness_utxo == psbt.inputs[i].witness_utxo);
                        assert(spec_sigs_extend(
                            psbt.inputs[i].partial_sigs,
                            signed.inputs[i].partial_sigs,
                        ));
                    }
                } else {
                    lemma_process_sigs_preserves(keys, psbt, sigs.drop_first());
                }
            },
            None => {
                lemma_process_sigs_preserves(keys, psbt, sigs.drop_first());
            },
        }
    }
}

/// What an accepted signer contributed to one input of the processed
/// PSBT: a signature under the signer's tweaked key that verifies
/// against that input's sighash.
pub open spec fn spec_signer_entry_present(
    keys: Seq<(PeerId, [u8; 33])>,
    psbt: crate::psbt::PsbtView,
    processed: crate::psbt::PsbtView,
    q: PeerId,
    i: int,
) -> bool {
    exists|e: int|
        0 <= e < processed.inputs[i].partial_sigs.len()
            && (#[trigger] processed.inputs[i].partial_sigs[e]).0
            == crate::keys::spec_tweaked_public_key(
            crate::config::spec_peer_key(keys, q).unwrap()@,
            psbt.inputs[i].tweak,
        ).unwrap() && crate::keys::ecdsa_sig_valid(
            processed.inputs[i].partial_sigs[e].0,
            crate::stateless::spec_input_sighash(psbt, i),
            processed.inputs[i].partial_sigs[e].1,
        )
}

/// Law: every accepted signer really signed everything. After the
/// delivered items are folded in, each peer in the signers set is a
/// known peer and, for every input, the processed PSBT holds a
/// signature under that peer's tweaked key that verifies against the
/// input's sighash.
pub proof fn lemma_signers_signatures_valid(
    keys: Seq<(PeerId, [u8; 33])>,
    psbt: crate::psbt::PsbtView,
    sigs: Seq<(PeerId, crate::PegOutSignatureItemView)>,
)
    ensures
        forall|q: PeerId| #[trigger] spec_process_sigs(keys, psbt, sigs).1.contains(q)
            ==> crate::config::spec_peer_key(keys, q) is Some && (forall|i: int|
            0 <= i < psbt.inputs.len() ==> spec_signer_entry_present(
                keys,
                psbt,
                spec_process_sigs(keys, psbt, sigs).0,
                q,
                i,
            )),
    decreases sigs.len(),
{
    if sigs.len() == 0 {
        assert(spec_process_sigs(keys, psbt, sigs).1 =~= Set::<PeerId>::empty());
    } else {
        let peer = sigs[0].0;
        let item = sigs[0].1;
        let rest = sigs.drop_first();
        match crate::config::spec_peer_key(keys, peer) {
            Some(pk) => {
                if spec_peer_sign_ok(pk@, psbt, item) {
                    let signed = spec_peer_signed_psbt(pk@, psbt, item);
                    let inner = spec_process_sigs(keys, signed, rest);
                    lemma_signers_signatures_valid(keys, signed, rest);
                    lemma_process_sigs_preserves(keys, signed, rest);
                    assert forall|q: PeerId|
                        #[trigger] spec_process_sigs(keys, psbt, sigs).1.contains(q)
                            implies crate::config::spec_peer_key(keys, q) is Some && (forall|
                        i: int,
                    |
                        0 <= i < psbt.inputs.len() ==> spec_signer_entry_present(
                            keys,
                            psbt,
                            spec_process_sigs(keys, psbt, sigs).0,
                            q,
                            i,
                        )) by {
                        assert(spec_process_sigs(keys, psbt, sigs).0 == inner.0);
                        assert(spec_process_sigs(keys, psbt, sigs).1 == inner.1.insert(peer));
                        if inner.1.contains(q) {
                            assert forall|i: int|
                                0 <= i < psbt.inputs.len() implies spec_signer_entry_present(
                                keys,
                                psbt,
                                inner.0,
                                q,
                                i,
                            ) by {
                                assert(spec_signer_entry_present(keys, signed, inner.0, q, i));
                                assert(signed.inputs[i].tweak == psbt.inputs[i].tweak);
                                assert(crate::stateless::spec_input_sighash(signed, i)
                                    == crate::stateless::spec_input_sighash(psbt, i));
                            }
                        } else {
                            assert(q == peer);
                            assert forall|i: int|
                                0 <= i < psbt.inputs.len() implies spec_signer_entry_present(
                                keys,
                                psbt,
                                inner.0,
                                q,
                                i,
                            ) by {
                                let pushed = signed.inputs[i].partial_sigs;
                                let e = pushed.len() - 1;
                                assert(pushed[e].0 == crate::keys::spec_tweaked_public_key(
                                    pk@,
                                    psbt.inputs[i].tweak,
                                ).unwrap());
                                assert(crate::keys::ecdsa_sig_valid(
                                    pushed[e].0,
                                    crate::stateless::spec_input_sighash(psbt, i),
                                    pushed[e].1,
                                ));
                                assert(spec_sigs_extend(pushed, inner.0.inputs[i].partial_sigs));
                                assert(inner.0.inputs[i].partial_sigs[e] == pushed[e]);
                            }
                        }
                    }
                } else {
                    lemma_signers_signatures_valid(keys, psbt, rest);
                    assert(spec_process_sigs(keys, psbt, sigs) == spec_process_sigs(
                        keys,
                        psbt,
                        rest,
                    ));
                }
            },
            None => {
                lemma_signers_signatures_valid(keys, psbt, rest);
                assert(spec_process_sigs(keys, psbt, sigs) == spec_process_sigs(
                    keys,
                    psbt,
                    rest,
                ));
            },
        }
    }
}

/// A witness that every entry of a queue is one of the entries of a
/// reference table, locating each by its index there.
pub open spec fn spec_queue_witness(
    witness: Seq<int>,
    unsigned: Seq<([u8; 32], UnsignedTransaction)>,
    table0: Seq<([u8; 32], UnsignedTransaction)>,
) -> bool {
    &&& witness.len() == unsigned.len()
    &&& forall|k: int| 0 <= k < witness.len() ==> 0 <= #[trigger] witness[k] < table0.len()
    &&& forall|k: int|
        0 <= k < witness.len() ==> (#[trigger] unsigned[k]).0@ == table0[witness[k]].0@
            && unsigned[k].1@ == table0[witness[k]].1@
}

/// Re-queueing the transaction under work preserves the recorded
/// transitions: earlier survivors keep their witnesses, earlier
/// finalizations stay absent from the queue (the pushed key differs),
/// and the entry under work becomes a survivor.
pub proof fn lemma_epoch_transitions_requeue(
    table0: Seq<([u8; 32], UnsignedTransaction)>,
    processed: int,
    unsigned_pre: Seq<([u8; 32], UnsignedTransaction)>,
    pending_pre: Seq<([u8; 32], crate::PendingTransaction)>,
    items_old: Seq<([u8; 32], Vec<[u8; 64]>)>,
    items_pre: Seq<([u8; 32], Vec<[u8; 64]>)>,
    entry: ([u8; 32], UnsignedTransaction),
)
    requires
        spec_assoc32_unique(table0),
        0 <= processed < table0.len(),
        entry == table0[processed],
        crate::db::spec_assoc32_get(items_pre, entry.0@) == crate::db::spec_assoc32_get(
            items_old,
            entry.0@,
        ),
        forall|j: int|
            0 <= j < processed ==> spec_epoch_transition(
                #[trigger] table0[j],
                unsigned_pre,
                pending_pre,
                items_old,
                items_pre,
            ),
    ensures
        forall|j: int|
            0 <= j < processed + 1 ==> spec_epoch_transition(
                #[trigger] table0[j],
                unsigned_pre.push(entry),
                pending_pre,
                items_old,
                items_pre,
            ),
{
    let pushed = unsigned_pre.push(entry);
    assert forall|j: int| 0 <= j < processed + 1 implies spec_epoch_transition(
        #[trigger] table0[j],
        pushed,
        pending_pre,
        items_old,
        items_pre,
    ) by {
        if j < processed {
            assert(spec_epoch_transition(
                table0[j],
                unsigned_pre,
                pending_pre,
                items_old,
                items_pre,
            ));
            if exists|i: int|
                0 <= i < unsigned_pre.len() && (#[trigger] unsigned_pre[i]).0@ == table0[j].0@
                    && unsigned_pre[i].1@ == table0[j].1@ {
                let i = choose|i: int|
                    0 <= i < unsigned_pre.len() && (#[trigger] unsigned_pre[i]).0@
                        == table0[j].0@ && unsigned_pre[i].1@ == table0[j].1@;
                assert(pushed[i] == unsigned_pre[i]);
                if crate::db::spec_assoc32_get(items_pre, table0[j].0@)
                    != crate::db::spec_assoc32_get(items_old, table0[j].0@) {
                    // Then the transition held through its second
                    // branch, which contradicts the entry's presence.
                    assert(!crate::db::spec_assoc32_contains(unsigned_pre, table0[j].0@));
                    crate::db::lemma_assoc32_absent_no_index(unsigned_pre, table0[j].0@);
                    assert(false);
                }
            } else {
                // An earlier finalization: the pushed key differs, so
                // the queue still lacks it.
                assert(table0[j].0@ != entry.0@);
                crate::db::lemma_assoc32_get_push(unsigned_pre, entry.0, entry.1, table0[j].0@);
            }
        } else {
            assert(pushed[pushed.len() - 1] == entry);
        }
    }
}

/// The peers to report for one transaction: every consensus peer that
/// is not among its signers.
pub fn drop_peers_for(consensus_peers: &Vec<PeerId>, signers: &Vec<PeerId>) -> (r: Vec<PeerId>)
    ensures
        forall|p: PeerId| #[trigger] r@.contains(p) <==> (consensus_peers@.contains(p)
            && !signers@.contains(p)),
{
    let mut out: Vec<PeerId> = Vec::new();
    let mut i: usize = 0;
    while i < consensus_peers.len()
        invariant
            i <= consensus_peers@.len(),
            forall|p: PeerId| #[trigger] out@.contains(p) ==> (consensus_peers@.contains(p)
                && !signers@.contains(p)),
            forall|j: int|
                0 <= j < i ==> (signers@.contains(#[trigger] consensus_peers@[j])
                    || out@.contains(consensus_peers@[j])),
        decreases consensus_peers@.len() - i,
    {
        let p = consensus_peers[i];
        if !peers_contain(signers, p) {
            let ghost pre = out@;
            out.push(p);
            proof {
                assert(out@[out@.len() - 1] == p);
                assert(consensus_peers@.contains(p)) by {
                    assert(consensus_peers@[i as int] == p);
                }
                assert forall|q: PeerId| #[trigger] out@.contains(q) implies (
                consensus_peers@.contains(q) && !signers@.contains(q)) by {
                    let ix = choose|ix: int| 0 <= ix < out@.len() && out@[ix] == q;
                    if ix < pre.len() {
                        assert(pre[ix] == q);
                        assert(pre.contains(q));
                    } else {
                        assert(q == p);
                    }
                }
                assert forall|j: int| 0 <= j < i + 1 implies (signers@.contains(
                    #[trigger] consensus_peers@[j],
                ) || out@.contains(consensus_peers@[j])) by {
                    if j < i {
                        if pre.contains(consensus_peers@[j]) {
                            let ix = choose|ix: int|
                                0 <= ix < pre.len() && pre[ix] == consensus_peers@[j];
                            assert(out@[ix] == consensus_peers@[j]);
                        }
                    } else {
                        assert(out@[out@.len() - 1] == consensus_peers@[j]);
                    }
                }
            }
        }
        i += 1;
    }
    proof {
        assert forall|p: PeerId| (consensus_peers@.contains(p) && !signers@.contains(
            p,
        )) implies #[trigger] out@.contains(p) by {
            let j = choose|j: int|
                0 <= j < consensus_peers@.len() && consensus_peers@[j] == p;
            assert(signers@.contains(consensus_peers@[j]) || out@.contains(
                consensus_peers@[j],
            ));
        }
    }
    out
}

/// `a + b`, saturating at the largest `u64`.
pub open spec fn spec_saturating_add_u64(a: u64, b: u64) -> u64 {
    if a + b <= u64::MAX {
        (a + b) as u64
    } else {
        u64::MAX
    }
}

/// Whether an address may receive a peg-out on the given network:
/// exact network match, except that testnet-encoded p2pkh and p2sh
/// addresses are also accepted on regtest and signet, and other
/// testnet-encoded addresses also on signet.
pub open spec fn spec_address_valid_for_network(
    address: crate::types::AddressView,
    network: crate::types::Network,
) -> bool {
    match (address.network, address.address_type) {
        (
            crate::types::Network::Testnet,
            Some(crate::types::AddressType::P2pkh),
        ) => network == crate::types::Network::Testnet || network
            == crate::types::Network::Regtest || network == crate::types::Network::Signet,
        (
            crate::types::Network::Testnet,
            Some(crate::types::AddressType::P2sh),
        ) => network == crate::types::Network::Testnet || network
            == crate::types::Network::Regtest || network == crate::types::Network::Signet,
        (crate::types::Network::Testnet, _) => network == crate::types::Network::Testnet
            || network == crate::types::Network::Signet,
        (addr_net, _) => addr_net == network,
    }
}

/// Whether an address may receive a peg-out on the given network.
pub fn is_address_valid_for_network(
    address: &crate::types::Address,
    network: crate::types::Network,
) -> (r: bool)
    ensures
        r == spec_address_valid_for_network(address@, network),
{
    match (address.network, address.address_type) {
        (crate::types::Network::Testnet, Some(crate::types::AddressType::P2pkh)) => network
            == crate::types::Network::Testnet || network == crate::types::Network::Regtest
            || network == crate::types::Network::Signet,
        (crate::types::Network::Testnet, Some(crate::types::AddressType::P2sh)) => network
            == crate::types::Network::Testnet || network == crate::types::Network::Regtest
            || network == crate::types::Network::Signet,
        (crate::types::Network::Testnet, _) => network == crate::types::Network::Testnet
            || network == crate::types::Network::Signet,
        (addr_net, _) => addr_net == network,
    }
}

/// The transaction a peg-out request builds in a given state: the
/// deterministic construction over the state's UTXOs at the request's
/// fee rate, with the current randomness beacon as change tweak.
pub open spec fn spec_peg_out_tx(
    cfg: WalletConfig,
    db: WalletDb,
    output: crate::PegOut,
) -> Option<UnsignedTransactionView>
    recommends
        db.round_consensus is Some,
{
    crate::stateless::spec_create_tx(
        cfg.consensus.peg_in_descriptor.threshold,
        crate::descriptor::key_views(cfg.consensus.peg_in_descriptor.keys@),
        output.amount,
        output.recipient.script_pubkey@,
        db.utxos@,
        output.fees.fee_rate,
        db.round_consensus.unwrap().randomness_beacon@,
    )
}

/// What a successfully applied peg-out records, in terms of the
/// transaction [`spec_create_tx`] deterministically builds from the
/// old state: the queued entry holds that transaction with only this
/// peer's signature item, every spent UTXO is reserved (removed), the
/// published signature item holds exactly those signatures, and the
/// request's bitcoin txid is recorded.
pub open spec fn spec_apply_output_record(
    cfg: WalletConfig,
    db_old: WalletDb,
    db_new: WalletDb,
    output: crate::PegOut,
    out_point: crate::types::OutPoint,
) -> bool {
    let sk = cfg.private.peg_in_key@;
    let u = spec_peg_out_tx(cfg, db_old, output).unwrap();
    let txid = crate::tx::txid_of(u.psbt.unsigned_tx);
    let our_sigs = Seq::new(
        u.psbt.inputs.len(),
        |i: int| crate::stateless::spec_signed_psbt(sk, u.psbt).inputs[i].partial_sigs.last().1,
    );
    let stored = crate::db::spec_assoc32_get(db_new.unsigned_transactions@, txid);
    let published = crate::db::spec_assoc32_get(db_new.peg_out_signature_items@, txid);
    &&& stored is Some
    &&& stored.unwrap()@.psbt == u.psbt
    &&& stored.unwrap()@.change == u.change
    &&& stored.unwrap()@.fees == u.fees
    &&& stored.unwrap()@.signatures.len() == 1
    &&& stored.unwrap()@.signatures[0].0 == cfg.private.our_id
    &&& stored.unwrap()@.signatures[0].1.txid == txid
    &&& stored.unwrap()@.signatures[0].1.signature == our_sigs
    &&& (forall|k: int|
        0 <= k < u.psbt.unsigned_tx.inputs.len() ==> !crate::db::spec_utxo_contains(
            db_new.utxos@,
            (#[trigger] u.psbt.unsigned_tx.inputs[k]).prev_txid,
            u.psbt.unsigned_tx.inputs[k].prev_vout,
        ))
    &&& published is Some
    &&& published.unwrap()@.map_values(|s: [u8; 64]| s@) == our_sigs
    &&& db_new.peg_out_bitcoin_tx@.len() == db_old.peg_out_bitcoin_tx@.len() + 1
    &&& db_new.peg_out_bitcoin_tx@.last().0 == out_point
    &&& (db_new.peg_out_bitcoin_tx@.last().1).0@ == txid
    &&& db_new.peg_out_bitcoin_tx@.take(db_old.peg_out_bitcoin_tx@.len() as int)
        == db_old.peg_out_bitcoin_tx@
}

/// Law: a credited peg-in cannot be credited twice. Applying a claim
/// records its outpoint as spendable, and validation returns
/// `PegInAlreadyClaimed` exactly when the claimed outpoint is already
/// spendable — so a second claim of the same outpoint can only be
/// rejected that way while the credit exists.
pub proof fn lemma_peg_in_claimed_once(
    db_after: WalletDb,
    proof_view: crate::txoproof::PegInProofView,
)
    requires
        db_after.utxos@.len() > 0,
        db_after.utxos@.last().0.txid@ == crate::tx::txid_of(proof_view.transaction),
        db_after.utxos@.last().0.vout == proof_view.output_idx,
    ensures
        crate::db::spec_utxo_contains(
            db_after.utxos@,
            crate::tx::txid_of(proof_view.transaction),
            proof_view.output_idx,
        ),
{
    let txid = crate::tx::txid_of(proof_view.transaction);
    let vout = proof_view.output_idx;
    if crate::db::spec_utxo_get(db_after.utxos@, txid, vout) is None {
        crate::db::lemma_utxo_absent_no_index(db_after.utxos@, txid, vout);
        assert(!(db_after.utxos@.last().0.txid@ == txid && db_after.utxos@.last().0.vout == vout));
    }
}

/// Whether the pending table is coherent: each entry is keyed by the
/// txid of the transaction it holds. Every entry the library itself
/// writes is (the finalizer keeps the unsigned transaction, which was
/// keyed by its txid when it was queued).
pub open spec fn spec_pending_coherent(s: Seq<([u8; 32], crate::PendingTransaction)>) -> bool {
    forall|i: int| 0 <= i < s.len() ==> (#[trigger] s[i]).0@ == crate::tx::txid_of(s[i].1.tx@)
}

/// What accepting a block guarantees for one of its transactions: if
/// a pending peg-out matches it, every output paying the tweaked
/// change script is spendable afterwards.
pub open spec fn spec_block_tx_recognized(
    cfg: WalletConfig,
    pending: Seq<([u8; 32], crate::PendingTransaction)>,
    utxos: Seq<(crate::types::BitcoinOutPoint, SpendableUTXO)>,
    tx: crate::tx::TxDataView,
) -> bool {
    match crate::db::spec_assoc32_get(pending, crate::tx::txid_of(tx)) {
        Some(p) => ({
            let spk = crate::descriptor::spec_tweaked_script_pubkey(
                cfg.consensus.peg_in_descriptor.threshold,
                crate::descriptor::key_views(cfg.consensus.peg_in_descriptor.keys@),
                p.tweak@,
            );
            (p.tx@.outputs.len() <= u32::MAX && spk is Some) ==> (forall|idx: int|
                (0 <= idx < p.tx@.outputs.len() && (#[trigger] p.tx@.outputs[idx]).script_pubkey
                    == spk.unwrap()) ==> (crate::db::spec_utxo_get(
                    utxos,
                    crate::tx::txid_of(p.tx@),
                    idx as u32,
                ) is Some && crate::db::spec_utxo_get(
                    utxos,
                    crate::tx::txid_of(p.tx@),
                    idx as u32,
                ).unwrap().tweak@ == p.tweak@ && crate::db::spec_utxo_get(
                    utxos,
                    crate::tx::txid_of(p.tx@),
                    idx as u32,
                ).unwrap().amount == p.tx@.outputs[idx].value))
        }),
        None => true,
    }
}

/// In a coherent pending table, a found entry's transaction has the
/// key it was found under as its txid.
pub proof fn lemma_pending_coherent_get(
    s: Seq<([u8; 32], crate::PendingTransaction)>,
    k: Seq<u8>,
)
    requires
        spec_pending_coherent(s),
        crate::db::spec_assoc32_get(s, k) is Some,
    ensures
        crate::tx::txid_of(crate::db::spec_assoc32_get(s, k).unwrap().tx@) == k,
    decreases s.len(),
{
    if s.len() > 0 {
        if s[0].0@ == k {
            assert(s[0].0@ == crate::tx::txid_of(s[0].1.tx@));
        } else {
            assert forall|i: int|
                0 <= i < s.drop_first().len() implies (#[trigger] s.drop_first()[i]).0@
                == crate::tx::txid_of(s.drop_first()[i].1.tx@) by {
                assert(s.drop_first()[i] == s[i + 1]);
            }
            lemma_pending_coherent_get(s.drop_first(), k);
        }
    }
}

/// Whether one UTXO-table cell either kept its old binding or was
/// (re)written by change recognition: the key names a pending
/// peg-out, the index a change output of it, and the stored value is
/// that output under the pending tweak.
pub open spec fn spec_utxo_change_is_recognition(
    cfg: WalletConfig,
    pending: Seq<([u8; 32], crate::PendingTransaction)>,
    utxos_old: Seq<(crate::types::BitcoinOutPoint, SpendableUTXO)>,
    utxos_new: Seq<(crate::types::BitcoinOutPoint, SpendableUTXO)>,
    qt: Seq<u8>,
    qv: u32,
) -> bool {
    ||| crate::db::spec_utxo_get(utxos_new, qt, qv) == crate::db::spec_utxo_get(
        utxos_old,
        qt,
        qv,
    )
    ||| (match crate::db::spec_assoc32_get(pending, qt) {
        Some(p) => ({
            let spk = crate::descriptor::spec_tweaked_script_pubkey(
                cfg.consensus.peg_in_descriptor.threshold,
                crate::descriptor::key_views(cfg.consensus.peg_in_descriptor.keys@),
                p.tweak@,
            );
            &&& spk is Some
            &&& qv < p.tx@.outputs.len()
            &&& p.tx@.outputs[qv as int].script_pubkey == spk.unwrap()
            &&& crate::db::spec_utxo_get(utxos_new, qt, qv) is Some
            &&& crate::db::spec_utxo_get(utxos_new, qt, qv).unwrap().tweak@ == p.tweak@
            &&& crate::db::spec_utxo_get(utxos_new, qt, qv).unwrap().amount
                == p.tx@.outputs[qv as int].value
        }),
        None => false,
    })
}

/// The chain follower's upper frame on the UTXO table: every cell is
/// unchanged or holds a recognized change output of a pending
/// peg-out. Nothing else ever enters the table through a sync.
pub open spec fn spec_utxo_frame(
    cfg: WalletConfig,
    pending: Seq<([u8; 32], crate::PendingTransaction)>,
    utxos_old: Seq<(crate::types::BitcoinOutPoint, SpendableUTXO)>,
    utxos_new: Seq<(crate::types::BitcoinOutPoint, SpendableUTXO)>,
) -> bool {
    forall|qt: Seq<u8>, qv: u32|
        #[trigger] spec_utxo_change_is_recognition(cfg, pending, utxos_old, utxos_new, qt, qv)
}

/// An unchanged table satisfies the frame.
pub proof fn lemma_utxo_frame_refl(
    cfg: WalletConfig,
    pending: Seq<([u8; 32], crate::PendingTransaction)>,
    utxos: Seq<(crate::types::BitcoinOutPoint, SpendableUTXO)>,
)
    ensures
        spec_utxo_frame(cfg, pending, utxos, utxos),
{
    assert forall|qt: Seq<u8>, qv: u32|
        #[trigger] spec_utxo_change_is_recognition(cfg, pending, utxos, utxos, qt, qv) by {}
}

/// Two framed steps compose into one framed step.
pub proof fn lemma_utxo_frame_trans(
    cfg: WalletConfig,
    pending: Seq<([u8; 32], crate::PendingTransaction)>,
    a: Seq<(crate::types::BitcoinOutPoint, SpendableUTXO)>,
    b: Seq<(crate::types::BitcoinOutPoint, SpendableUTXO)>,
    c: Seq<(crate::types::BitcoinOutPoint, SpendableUTXO)>,
)
    requires
        spec_utxo_frame(cfg, pending, a, b),
        spec_utxo_frame(cfg, pending, b, c),
    ensures
        spec_utxo_frame(cfg, pending, a, c),
{
    assert forall|qt: Seq<u8>, qv: u32|
        #[trigger] spec_utxo_change_is_recognition(cfg, pending, a, c, qt, qv) by {
        assert(spec_utxo_change_is_recognition(cfg, pending, a, b, qt, qv));
        assert(spec_utxo_change_is_recognition(cfg, pending, b, c, qt, qv));
    }
}

/// One bitcoin block, as the chain follower receives it: its hash and
/// its transactions.
#[derive(Clone, Debug, PartialEq, Eq)]
pub struct BlockData {
    pub hash: [u8; 32],
    pub txdata: Vec<crate::tx::TxData>,
}

/// The three balances the auditor adds up; their sum (with peg-ins
/// positive and broadcast peg-outs negative) must net to zero across
/// the federation.
#[derive(Clone, Copy, Debug, PartialEq, Eq)]
pub struct AuditSummary {
    pub spendable_sats: u128,
    pub unsigned_change_sats: u128,
    pub pending_change_sats: u128,
}

/// How many blocks a sync from `old_height` (the previous consensus
/// height, or ten short of the target at genesis) to `new_height`
/// hands in.
pub open spec fn spec_blocks_to_fetch(old_height: Option<u32>, new_height: u32) -> u32 {
    let old = match old_height {
        Some(h) => h,
        None => if new_height >= 10 {
            (new_height - 10) as u32
        } else {
            0u32
        },
    };
    if new_height > old {
        (new_height - old) as u32
    } else {
        0u32
    }
}

/// A hash once known stays known: accepting blocks only grows the set.
pub proof fn lemma_block_known_monotone(pre: Seq<[u8; 32]>, post: Seq<[u8; 32]>, h: Seq<u8>)
    requires
        post == pre || exists|x: [u8; 32]| post == pre.push(x),
        crate::db::spec_block_known(pre, h),
    ensures
        crate::db::spec_block_known(post, h),
{
    let i = choose|i: int| 0 <= i < pre.len() && pre[i]@ == h;
    if post != pre {
        let x = choose|x: [u8; 32]| post == pre.push(x);
        assert(post[i]@ == h);
    } else {
        assert(post[i]@ == h);
    }
}

/// The total value of the UTXO table, in satoshi.
pub open spec fn spec_utxo_total_sats(
    s: Seq<(crate::types::BitcoinOutPoint, SpendableUTXO)>,
) -> int
    decreases s.len(),
{
    if s.len() == 0 {
        0
    } else {
        spec_utxo_total_sats(s.drop_last()) + s.last().1.amount
    }
}

/// The change still owed by queued transactions, in satoshi.
pub open spec fn spec_unsigned_change_sats(s: Seq<([u8; 32], UnsignedTransaction)>) -> int
    decreases s.len(),
{
    if s.len() == 0 {
        0
    } else {
        spec_unsigned_change_sats(s.drop_last()) + s.last().1.change
    }
}

/// The change still owed by pending transactions, in satoshi.
pub open spec fn spec_pending_change_sats(s: Seq<([u8; 32], crate::PendingTransaction)>) -> int
    decreases s.len(),
{
    if s.len() == 0 {
        0
    } else {
        spec_pending_change_sats(s.drop_last()) + s.last().1.change
    }
}

/// Whether a list of peers holds one.
pub fn peers_contain(peers: &Vec<PeerId>, p: PeerId) -> (r: bool)
    ensures
        r == peers@.contains(p),
{
    let mut i: usize = 0;
    while i < peers.len()
        invariant
            i <= peers@.len(),
            forall|j: int| 0 <= j < i ==> peers@[j] != p,
        decreases peers@.len() - i,
    {
        if peers[i].id == p.id {
            assert(peers@[i as int] == p);
            return true;
        }
        i += 1;
    }
    false
}

/// The consensus height a state knows, zero before the first epoch.
pub open spec fn spec_consensus_height(db: WalletDb) -> u32 {
    match db.round_consensus {
        Some(rc) => rc.block_height,
        None => 0,
    }
}

/// The wallet: frozen configuration around a state the epoch
/// operations thread through.
#[derive(Clone, Debug)]
pub struct Wallet {
    pub cfg: WalletConfig,
}

impl Wallet {
    /// A wallet over a frozen configuration.
    pub fn new(cfg: WalletConfig) -> (r: Wallet)
        ensures
            r.cfg == cfg,
    {
        Wallet { cfg }
    }

    /// Checks the bitcoin node's network against the configuration
    /// before using it, as bring-up must.
    pub fn new_with_bitcoind(cfg: WalletConfig, bitcoind_network: crate::types::Network) -> (r:
        Result<Wallet, WalletError>)
        ensures
            match r {
                Ok(wallet) => wallet.cfg == cfg && bitcoind_network == cfg.consensus.network,
                Err(e) => bitcoind_network != cfg.consensus.network && e
                    == WalletError::WrongNetwork(cfg.consensus.network, bitcoind_network),
            },
    {
        if bitcoind_network != cfg.consensus.network {
            return Err(WalletError::WrongNetwork(cfg.consensus.network, bitcoind_network));
        }
        Ok(Wallet { cfg })
    }

    /// The stateless signer this wallet's configuration induces.
    pub fn offline_wallet(&self) -> (r: StatelessWallet)
        ensures
            r.descriptor.threshold == self.cfg.consensus.peg_in_descriptor.threshold,
            r.descriptor.keys@ == self.cfg.consensus.peg_in_descriptor.keys@,
            r.secret_key == self.cfg.private.peg_in_key,
    {
        StatelessWallet {
            descriptor: crate::descriptor::PegInDescriptor {
                threshold: self.cfg.consensus.peg_in_descriptor.threshold,
                keys: crate::descriptor::clone_keys(&self.cfg.consensus.peg_in_descriptor.keys),
            },
            secret_key: self.cfg.private.peg_in_key,
        }
    }

    /// The height this peer aims the federation at: the node's tip
    /// minus the finality delay, never below zero.
    pub fn target_height(&self, chain_height: u64) -> (r: u32)
        ensures
            r == if chain_height > u32::MAX {
                (u32::MAX - self.cfg.consensus.finality_delay) as u32
            } else if chain_height >= self.cfg.consensus.finality_delay {
                (chain_height - self.cfg.consensus.finality_delay) as u32
            } else {
                0u32
            },
    {
        let capped: u32 = if chain_height > u32::MAX as u64 {
            u32::MAX
        } else {
            chain_height as u32
        };
        if capped >= self.cfg.consensus.finality_delay {
            capped - self.cfg.consensus.finality_delay
        } else {
            0
        }
    }

    /// The wallet precomputes nothing across inputs.
    pub fn build_verification_cache(&self) -> (r: crate::WalletVerificationCache)
        ensures
            r == crate::WalletVerificationCache,
    {
        crate::WalletVerificationCache
    }

    /// Whether this peer has something to say this epoch: a pending
    /// signature item, or a target height above the agreed one. The
    /// host polls the chain and sleeps until this holds, then asks for
    /// the proposal.
    pub fn has_fresh_proposal(&self, db: &WalletDb, target_height: u32) -> (r: bool)
        ensures
            r == (db.peg_out_signature_items@.len() > 0 || target_height > spec_consensus_height(
                *db,
            )),
    {
        if db.peg_out_signature_items.len() > 0 {
            return true;
        }
        let consensus = match db.round_consensus {
            Some(rc) => rc.block_height,
            None => 0,
        };
        target_height > consensus
    }

    /// The current round consensus, absent before the first epoch.
    pub fn current_round_consensus(&self, db: &WalletDb) -> (r: Option<RoundConsensus>)
        ensures
            r == db.round_consensus,
    {
        db.round_consensus
    }

    /// The consensus block height, if an epoch happened yet.
    pub fn consensus_height(&self, db: &WalletDb) -> (r: Option<u32>)
        ensures
            r == match db.round_consensus {
                Some(rc) => Some(rc.block_height),
                None => None::<u32>,
            },
    {
        match db.round_consensus {
            Some(rc) => Some(rc.block_height),
            None => None,
        }
    }

    /// The lower-middle median of the peers' fee-rate proposals.
    pub fn process_fee_proposals(&self, proposals: &Vec<Feerate>) -> (r: Feerate)
        requires
            proposals@.len() > 0,
        ensures
            r.sats_per_kvb == spec_median_u64(
                proposals@.map_values(|f: Feerate| f.sats_per_kvb),
            ),
    {
        let mut rates: Vec<u64> = Vec::with_capacity(proposals.len());
        let mut i: usize = 0;
        while i < proposals.len()
            invariant
                i <= proposals@.len(),
                rates@.len() == i,
                forall|j: int| 0 <= j < i ==> rates@[j] == proposals@[j].sats_per_kvb,
            decreases proposals@.len() - i,
        {
            rates.push(proposals[i].sats_per_kvb);
            i += 1;
        }
        proof {
            assert(rates@ =~= proposals@.map_values(|f: Feerate| f.sats_per_kvb));
        }
        Feerate { sats_per_kvb: crate::sort::median_u64(&rates) }
    }

    /// The lower-middle median of the peers' height proposals, which
    /// must not fall below the height already agreed on.
    pub fn process_block_height_proposals(&self, db: &WalletDb, proposals: &Vec<u32>) -> (r: Result<
        u32,
        EpochError,
    >)
        requires
            proposals@.len() > 0,
        ensures
            ({
                let median = spec_median_u64(proposals@.map_values(|h: u32| h as u64));
                match r {
                    Ok(h) => h as u64 == median && h >= spec_consensus_height(*db),
                    Err(e) => median < spec_consensus_height(*db) && e
                        == EpochError::BlockHeightShrunk(median as u32, spec_consensus_height(*db)),
                }
            }),
    {
        let mut heights: Vec<u64> = Vec::with_capacity(proposals.len());
        let mut i: usize = 0;
        while i < proposals.len()
            invariant
                i <= proposals@.len(),
                heights@.len() == i,
                forall|j: int| 0 <= j < i ==> heights@[j] == proposals@[j] as u64,
            decreases proposals@.len() - i,
        {
            heights.push(proposals[i] as u64);
            i += 1;
        }
        proof {
            assert(heights@ =~= proposals@.map_values(|h: u32| h as u64));
            broadcast use vstd::seq_lib::group_to_multiset_ensures;

            crate::sort::lemma_u64_leq_total_ordering();
            heights@.lemma_sort_by_ensures(crate::sort::u64_leq());
            let sorted = crate::sort::spec_sorted_u64(heights@);
            let m = spec_median_u64(heights@);
            assert(sorted.to_multiset().len() == heights@.to_multiset().len());
            assert(sorted.len() == heights@.len());
            let mid = ((sorted.len() - 1) / 2) as int;
            assert(0 <= mid < sorted.len());
            assert(sorted[mid] == m);
            assert(sorted.contains(m));
            assert(sorted.to_multiset().count(m) > 0);
            assert(heights@.to_multiset().count(m) > 0);
            assert(heights@.contains(m));
            let j = choose|j: int| 0 <= j < heights@.len() && #[trigger] heights@[j] == m;
            assert(heights@[j] <= u32::MAX);
        }
        let median_u64: u64 = crate::sort::median_u64(&heights);
        let median: u32 = median_u64 as u32;
        let consensus_height = match db.round_consensus {
            Some(rc) => rc.block_height,
            None => 0,
        };
        if median >= consensus_height {
            Ok(median)
        } else {
            Err(EpochError::BlockHeightShrunk(median, consensus_height))
        }
    }

    /// The consensus items this peer publishes for the next epoch:
    /// every pending signature item it holds, then exactly one round
    /// proposal built from the given target height, fee estimate and
    /// randomness contribution.
    pub fn consensus_proposal_with_randomness(
        &self,
        db: &WalletDb,
        target_height: u32,
        fee_rate: Option<Feerate>,
        randomness: [u8; 32],
    ) -> (r: Vec<WalletConsensusItem>)
        ensures
            r@.len() == db.peg_out_signature_items@.len() + 1,
            forall|i: int|
                0 <= i < db.peg_out_signature_items@.len() ==> match #[trigger] r@[i] {
                    WalletConsensusItem::PegOutSignature(sig) => sig.txid@
                        == db.peg_out_signature_items@[i].0@ && sig.signature@
                        == db.peg_out_signature_items@[i].1@,
                    WalletConsensusItem::RoundConsensus(_) => false,
                },
            match r@[r@.len() - 1] {
                WalletConsensusItem::RoundConsensus(rc) => {
                    &&& rc.block_height == if target_height >= spec_consensus_height(*db) {
                        target_height
                    } else {
                        spec_consensus_height(*db)
                    }
                    &&& rc.fee_rate == match fee_rate {
                        Some(rate) => rate,
                        None => self.cfg.consensus.default_fee,
                    }
                    &&& rc.randomness == randomness
                },
                WalletConsensusItem::PegOutSignature(_) => false,
            },
    {
        let mut items: Vec<WalletConsensusItem> = Vec::new();
        let mut i: usize = 0;
        while i < db.peg_out_signature_items.len()
            invariant
                i <= db.peg_out_signature_items@.len(),
                items@.len() == i,
                forall|j: int|
                    0 <= j < i ==> match #[trigger] items@[j] {
                        WalletConsensusItem::PegOutSignature(sig) => sig.txid@
                            == db.peg_out_signature_items@[j].0@ && sig.signature@
                            == db.peg_out_signature_items@[j].1@,
                        WalletConsensusItem::RoundConsensus(_) => false,
                    },
            decreases db.peg_out_signature_items@.len() - i,
        {
            let entry = &db.peg_out_signature_items[i];
            items.push(
                WalletConsensusItem::PegOutSignature(
                    PegOutSignatureItem {
                        txid: entry.0,
                        signature: crate::stateless::clone_sig_list(&entry.1),
                    },
                ),
            );
            i += 1;
        }
        let last_height = match db.round_consensus {
            Some(rc) => rc.block_height,
            None => 0,
        };
        let proposed_height = if target_height >= last_height {
            target_height
        } else {
            last_height
        };
        let rate = match fee_rate {
            Some(rate) => rate,
            None => self.cfg.consensus.default_fee,
        };
        items.push(
            WalletConsensusItem::RoundConsensus(
                RoundConsensusItem { block_height: proposed_height, fee_rate: rate, randomness },
            ),
        );
        items
    }

    /// As [`Self::consensus_proposal_with_randomness`], drawing the
    /// randomness contribution from the operating system. Everything
    /// but the drawn bytes is pinned: the held signature items come
    /// first, then exactly one round item at the agreed-or-better
    /// height and the given-or-default fee rate.
    pub fn consensus_proposal(
        &self,
        db: &WalletDb,
        target_height: u32,
        fee_rate: Option<Feerate>,
    ) -> (r: Vec<WalletConsensusItem>)
        ensures
            r@.len() == db.peg_out_signature_items@.len() + 1,
            forall|i: int|
                0 <= i < db.peg_out_signature_items@.len() ==> match #[trigger] r@[i] {
                    WalletConsensusItem::PegOutSignature(sig) => sig.txid@
                        == db.peg_out_signature_items@[i].0@ && sig.signature@
                        == db.peg_out_signature_items@[i].1@,
                    WalletConsensusItem::RoundConsensus(_) => false,
                },
            match r@[r@.len() - 1] {
                WalletConsensusItem::RoundConsensus(rc) => {
                    &&& rc.block_height == if target_height >= spec_consensus_height(*db) {
                        target_height
                    } else {
                        spec_consensus_height(*db)
                    }
                    &&& rc.fee_rate == match fee_rate {
                        Some(rate) => rate,
                        None => self.cfg.consensus.default_fee,
                    }
                },
                WalletConsensusItem::PegOutSignature(_) => false,
            },
    {
        let randomness = os_random_32();
        self.consensus_proposal_with_randomness(db, target_height, fee_rate, randomness)
    }

    /// Folds delivered signature items into the queued transactions
    /// they name, in delivery order; items naming unknown transactions
    /// are dropped.
    pub fn save_peg_out_signatures(
        &self,
        db: &mut WalletDb,
        signatures: Vec<(PeerId, PegOutSignatureItem)>,
    )
        requires
            spec_assoc32_unique(old(db).unsigned_transactions@),
        ensures
            spec_unsigned_table_view(final(db).unsigned_transactions@) == spec_save_sigs(
                spec_unsigned_table_view(old(db).unsigned_transactions@),
                signatures@.map_values(|s: (PeerId, PegOutSignatureItem)| (s.0, s.1@)),
            ),
            final(db).unsigned_transactions@.len() == old(db).unsigned_transactions@.len(),
            forall|i: int|
                0 <= i < old(db).unsigned_transactions@.len()
                    ==> #[trigger] final(db).unsigned_transactions@[i].0 == old(db).unsigned_transactions@[i].0,
            spec_assoc32_unique(final(db).unsigned_transactions@),
            final(db).round_consensus == old(db).round_consensus,
            final(db).block_hashes@ == old(db).block_hashes@,
            final(db).utxos@ == old(db).utxos@,
            final(db).pending_transactions@ == old(db).pending_transactions@,
            final(db).peg_out_signature_items@ == old(db).peg_out_signature_items@,
            final(db).peg_out_bitcoin_tx@ == old(db).peg_out_bitcoin_tx@,
    {
        let ghost table0 = spec_unsigned_table_view(old(db).unsigned_transactions@);
        let ghost sigs0 = signatures@.map_values(
            |s: (PeerId, PegOutSignatureItem)| (s.0, s.1@),
        );
        let mut signatures = signatures;
        proof {
            assert(signatures@.map_values(|s: (PeerId, PegOutSignatureItem)| (s.0, s.1@))
                =~= sigs0);
        }
        while signatures.len() > 0
            invariant
                spec_assoc32_unique(db.unsigned_transactions@),
                db.unsigned_transactions@.len() == old(db).unsigned_transactions@.len(),
                forall|i: int|
                    0 <= i < old(db).unsigned_transactions@.len()
                        ==> #[trigger] db.unsigned_transactions@[i].0 == old(db).unsigned_transactions@[i].0,
                spec_save_sigs(table0, sigs0) == spec_save_sigs(
                    spec_unsigned_table_view(db.unsigned_transactions@),
                    signatures@.map_values(|s: (PeerId, PegOutSignatureItem)| (s.0, s.1@)),
                ),
                db.round_consensus == old(db).round_consensus,
                db.block_hashes@ == old(db).block_hashes@,
                db.utxos@ == old(db).utxos@,
                db.pending_transactions@ == old(db).pending_transactions@,
                db.peg_out_signature_items@ == old(db).peg_out_signature_items@,
                db.peg_out_bitcoin_tx@ == old(db).peg_out_bitcoin_tx@,
            decreases signatures@.len(),
        {
            let ghost sigs_pre = signatures@.map_values(
                |s: (PeerId, PegOutSignatureItem)| (s.0, s.1@),
            );
            let ghost table_pre = spec_unsigned_table_view(db.unsigned_transactions@);
            let entry = signatures.remove(0);
            let peer = entry.0;
            let sig = entry.1;
            proof {
                assert(signatures@.map_values(|s: (PeerId, PegOutSignatureItem)| (s.0, s.1@))
                    =~= sigs_pre.drop_first());
                assert(sigs_pre[0] == (peer, sig@));
            }
            let mut i: usize = 0;
            let mut found: Option<usize> = None;
            while i < db.unsigned_transactions.len() && found.is_none()
                invariant
                    i <= db.unsigned_transactions@.len(),
                    found is None ==> forall|j: int|
                        0 <= j < i ==> #[trigger] db.unsigned_transactions@[j].0@ != sig.txid@,
                    found is Some ==> found.unwrap() < db.unsigned_transactions@.len()
                        && db.unsigned_transactions@[found.unwrap() as int].0@ == sig.txid@,
                decreases db.unsigned_transactions@.len() - i, (if found is None {
                    1int
                } else {
                    0int
                }),
            {
                if crate::types::bytes32_equal(&db.unsigned_transactions[i].0, &sig.txid) {
                    found = Some(i);
                } else {
                    i += 1;
                }
            }
            let ghost updated = found is Some;
            match found {
                Some(idx) => {
                    let ghost before = db.unsigned_transactions@;
                    db.unsigned_transactions[idx].1.signatures.push((peer, sig));
                    proof {
                        let after = db.unsigned_transactions@;
                        assert(after[idx as int].0 == before[idx as int].0);
                        assert(after[idx as int].1.signatures@ == before[
                            idx as int].1.signatures@.push((peer, sig)));
                        assert forall|j: int|
                            0 <= j < after.len() implies #[trigger] spec_unsigned_table_view(
                            after,
                        )[j] == spec_append_sig(table_pre, peer, sig@)[j] by {
                            if j != idx {
                                assert(after[j] == before[j]);
                                assert(before[j].0@ != sig.txid@);
                            } else {
                                assert(after[j].1@.signatures =~= before[
                                    j].1@.signatures.push((peer, sig@)));
                            }
                        }
                        assert(spec_unsigned_table_view(after) =~= spec_append_sig(
                            table_pre,
                            peer,
                            sig@,
                        ));
                    }
                },
                None => {},
            }
            proof {
                let sigv = sigs_pre[0].1;
                if !updated {
                    assert forall|j: int| 0 <= j < table_pre.len() implies #[trigger] table_pre[j]
                        == spec_append_sig(table_pre, peer, sigv)[j] by {
                        assert(db.unsigned_transactions@[j].0@ != sigv.txid);
                        assert(table_pre[j].0 == db.unsigned_transactions@[j].0@);
                    }
                    assert(spec_unsigned_table_view(db.unsigned_transactions@) =~= spec_append_sig(
                        table_pre,
                        peer,
                        sigv,
                    ));
                }
                assert(spec_save_sigs(table_pre, sigs_pre) == spec_save_sigs(
                    spec_append_sig(table_pre, peer, sigv),
                    sigs_pre.drop_first(),
                ));
            }
        }
        proof {
            assert(signatures@.map_values(|s: (PeerId, PegOutSignatureItem)| (s.0, s.1@)).len()
                == 0);
        }
    }

    /// Starts an epoch: folds delivered signature items into the
    /// queued transactions, then combines the round proposals into the
    /// new round consensus (median fee rate, median height — which
    /// must not shrink — and XOR of the randomness contributions) and
    /// writes it. The caller must then sync the chain follower up to
    /// the new height.
    pub fn begin_consensus_epoch(
        &self,
        db: &mut WalletDb,
        consensus_items: Vec<(PeerId, WalletConsensusItem)>,
    ) -> (r: Result<RoundConsensus, EpochError>)
        requires
            spec_assoc32_unique(old(db).unsigned_transactions@),
        ensures
            spec_assoc32_unique(final(db).unsigned_transactions@),
            spec_unsigned_table_view(final(db).unsigned_transactions@) == spec_save_sigs(
                spec_unsigned_table_view(old(db).unsigned_transactions@),
                spec_sig_items(consensus_items@).map_values(
                    |s: (PeerId, PegOutSignatureItem)| (s.0, s.1@),
                ),
            ),
            final(db).block_hashes@ == old(db).block_hashes@,
            final(db).utxos@ == old(db).utxos@,
            final(db).pending_transactions@ == old(db).pending_transactions@,
            final(db).peg_out_signature_items@ == old(db).peg_out_signature_items@,
            final(db).peg_out_bitcoin_tx@ == old(db).peg_out_bitcoin_tx@,
            ({
                let rounds = spec_round_items(consensus_items@);
                match r {
                    Ok(rc) => {
                        &&& rounds.len() > 0
                        &&& rc.block_height as u64 == spec_median_u64(spec_heights(rounds))
                        &&& rc.block_height >= spec_consensus_height(*old(db))
                        &&& rc.fee_rate.sats_per_kvb == spec_median_u64(spec_fee_rates(rounds))
                        &&& rc.randomness_beacon@ == spec_xor_fold(
                            spec_randomness_contributions(rounds),
                        )
                        &&& final(db).round_consensus == Some(rc)
                    },
                    Err(EpochError::NoProposals) => rounds.len() == 0 && final(db).round_consensus
                        == old(db).round_consensus,
                    Err(EpochError::BlockHeightShrunk(median, current)) => {
                        &&& rounds.len() > 0
                        &&& median as u64 == spec_median_u64(spec_heights(rounds))
                        &&& current == spec_consensus_height(*old(db))
                        &&& median < current
                        &&& final(db).round_consensus == old(db).round_consensus
                    },
                }
            }),
    {
        let ghost items0 = consensus_items@;
        let mut consensus_items = consensus_items;
        let mut rounds: Vec<(PeerId, RoundConsensusItem)> = Vec::new();
        let mut sig_items: Vec<(PeerId, PegOutSignatureItem)> = Vec::new();
        while consensus_items.len() > 0
            invariant
                spec_round_items(items0) == rounds@ + spec_round_items(consensus_items@),
                spec_sig_items(items0) == sig_items@ + spec_sig_items(consensus_items@),
            decreases consensus_items@.len(),
        {
            let ghost pre = consensus_items@;
            let entry = consensus_items.remove(0);
            proof {
                assert(consensus_items@ =~= pre.drop_first());
                assert(pre[0] == entry);
            }
            match entry.1 {
                WalletConsensusItem::RoundConsensus(rc) => {
                    rounds.push((entry.0, rc));
                    proof {
                        assert(rounds@ + spec_round_items(consensus_items@) =~= rounds@.drop_last()
                            + (seq![(entry.0, rc)] + spec_round_items(pre.drop_first())));
                    }
                },
                WalletConsensusItem::PegOutSignature(sig) => {
                    let ghost sigv = sig;
                    sig_items.push((entry.0, sig));
                    proof {
                        assert(sig_items@ + spec_sig_items(consensus_items@)
                            =~= sig_items@.drop_last() + (seq![(entry.0, sigv)] + spec_sig_items(
                            pre.drop_first(),
                        )));
                    }
                },
            }
        }
        proof {
            assert(spec_round_items(consensus_items@).len() == 0);
            assert(spec_sig_items(consensus_items@).len() == 0);
            assert(rounds@ =~= spec_round_items(items0));
            assert(sig_items@ =~= spec_sig_items(items0));
        }

        self.save_peg_out_signatures(db, sig_items);

        if rounds.len() == 0 {
            return Err(EpochError::NoProposals);
        }

        let mut fee_proposals: Vec<Feerate> = Vec::with_capacity(rounds.len());
        let mut height_proposals: Vec<u32> = Vec::with_capacity(rounds.len());
        let mut randomness_contributions: Vec<[u8; 32]> = Vec::with_capacity(rounds.len());
        let mut i: usize = 0;
        while i < rounds.len()
            invariant
                i <= rounds@.len(),
                fee_proposals@.len() == i,
                height_proposals@.len() == i,
                randomness_contributions@.len() == i,
                forall|j: int| 0 <= j < i ==> fee_proposals@[j] == rounds@[j].1.fee_rate,
                forall|j: int| 0 <= j < i ==> height_proposals@[j] == rounds@[j].1.block_height,
                forall|j: int|
                    0 <= j < i ==> randomness_contributions@[j] == rounds@[j].1.randomness,
            decreases rounds@.len() - i,
        {
            fee_proposals.push(rounds[i].1.fee_rate);
            height_proposals.push(rounds[i].1.block_height);
            randomness_contributions.push(rounds[i].1.randomness);
            i += 1;
        }
        proof {
            assert(fee_proposals@.map_values(|f: Feerate| f.sats_per_kvb) =~= spec_fee_rates(
                rounds@,
            ));
            assert(height_proposals@.map_values(|h: u32| h as u64) =~= spec_heights(rounds@));
            assert(randomness_contributions@.map_values(|c: [u8; 32]| c@)
                =~= spec_randomness_contributions(rounds@));
        }

        let fee_rate = self.process_fee_proposals(&fee_proposals);
        let block_height = match self.process_block_height_proposals(db, &height_proposals) {
            Ok(height) => height,
            Err(e) => {
                return Err(e);
            },
        };
        let randomness_beacon = self.process_randomness_contributions(&randomness_contributions);

        let round_consensus = RoundConsensus { block_height, fee_rate, randomness_beacon };
        db.round_consensus = Some(round_consensus);
        Ok(round_consensus)
    }

    /// Checks one peer's signature item against a queued PSBT and, if
    /// every input's signature verifies under the peer's tweaked key,
    /// records them all; on any failure the PSBT is untouched and the
    /// peer's contribution rejected.
    pub fn sign_peg_out_psbt(
        &self,
        psbt: &mut crate::psbt::PsbtData,
        peer: PeerId,
        signature: &PegOutSignatureItem,
    ) -> (r: Result<(), crate::ProcessPegOutSigError>)
        requires
            crate::config::spec_peer_key(self.cfg.consensus.peer_peg_in_keys@, peer) is Some,
        ensures
            ({
                let pk = crate::config::spec_peer_key(
                    self.cfg.consensus.peer_peg_in_keys@,
                    peer,
                ).unwrap();
                match r {
                    Ok(()) => spec_peer_sign_ok(pk@, old(psbt)@, signature@) && final(psbt)@
                        == spec_peer_signed_psbt(pk@, old(psbt)@, signature@),
                    Err(e) => !spec_peer_sign_ok(pk@, old(psbt)@, signature@) && final(psbt)@
                        == old(psbt)@ && match e {
                        crate::ProcessPegOutSigError::WrongSignatureCount(expected, got) =>
                            expected == old(psbt)@.inputs.len() && got
                                == signature@.signature.len() && expected != got,
                        crate::ProcessPegOutSigError::SighashError => signature@.signature.len()
                            == old(psbt)@.inputs.len() && old(psbt)@.inputs.len() > old(
                            psbt,
                        )@.unsigned_tx.inputs.len(),
                        crate::ProcessPegOutSigError::InvalidSignature => signature@.signature.len()
                            == old(psbt)@.inputs.len() && exists|i: int|
                            0 <= i < old(psbt)@.inputs.len() && ((
                            #[trigger] crate::keys::spec_tweaked_public_key(
                                pk@,
                                old(psbt)@.inputs[i].tweak,
                            )) is None || !crate::keys::ecdsa_sig_valid(
                                crate::keys::spec_tweaked_public_key(
                                    pk@,
                                    old(psbt)@.inputs[i].tweak,
                                ).unwrap(),
                                crate::stateless::spec_input_sighash(old(psbt)@, i),
                                signature@.signature[i],
                            )),
                        crate::ProcessPegOutSigError::DuplicateSignature => signature@.signature.len()
                            == old(psbt)@.inputs.len() && exists|i: int|
                            0 <= i < old(psbt)@.inputs.len() && crate::psbt::spec_has_sig_key(
                                #[trigger] old(psbt)@.inputs[i].partial_sigs,
                                crate::keys::spec_tweaked_public_key(
                                    pk@,
                                    old(psbt)@.inputs[i].tweak,
                                ).unwrap(),
                            ),
                        _ => false,
                    },
                }
            }),
    {
        let peer_key = match self.cfg.consensus.peer_pubkey(peer) {
            Some(key) => key,
            None => {
                // Unreachable: the caller established the peer is known.
                proof {
                    assert(false);
                }
                return Err(crate::ProcessPegOutSigError::InvalidSignature);
            },
        };
        if psbt.inputs.len() != signature.signature.len() {
            return Err(
                crate::ProcessPegOutSigError::WrongSignatureCount(
                    psbt.inputs.len(),
                    signature.signature.len(),
                ),
            );
        }
        // First pass: verify every input's signature, touching nothing.
        let mut tweaked_keys: Vec<[u8; 33]> = Vec::new();
        let mut i: usize = 0;
        while i < psbt.inputs.len()
            invariant
                psbt == old(psbt),
                peer_key@ == crate::config::spec_peer_key(
                    self.cfg.consensus.peer_peg_in_keys@,
                    peer,
                ).unwrap()@,
                signature@.signature.len() == psbt.inputs@.len(),
                i <= psbt.inputs@.len(),
                tweaked_keys@.len() == i,
                forall|j: int|
                    0 <= j < i ==> (#[trigger] crate::keys::spec_tweaked_public_key(
                        peer_key@,
                        psbt@.inputs[j].tweak,
                    )) is Some && j < psbt@.unsigned_tx.inputs.len()
                        && crate::keys::ecdsa_sig_valid(
                        crate::keys::spec_tweaked_public_key(
                            peer_key@,
                            psbt@.inputs[j].tweak,
                        ).unwrap(),
                        crate::stateless::spec_input_sighash(psbt@, j),
                        signature@.signature[j],
                    ) && !crate::psbt::spec_has_sig_key(
                        psbt@.inputs[j].partial_sigs,
                        crate::keys::spec_tweaked_public_key(
                            peer_key@,
                            psbt@.inputs[j].tweak,
                        ).unwrap(),
                    ),
                forall|j: int|
                    0 <= j < i ==> #[trigger] tweaked_keys@[j]@
                        == crate::keys::spec_tweaked_public_key(
                        peer_key@,
                        psbt@.inputs[j].tweak,
                    ).unwrap(),
            decreases psbt.inputs@.len() - i,
        {
            let input = &psbt.inputs[i];
            proof {
                assert(input@ == psbt@.inputs[i as int]);
            }
            let sighash = match crate::tx::tx_segwit_sighash(
                &psbt.unsigned_tx,
                i,
                &input.witness_script,
                input.witness_utxo.value,
            ) {
                Some(hash) => hash,
                None => {
                    proof {
                        assert(psbt@.inputs.len() > psbt@.unsigned_tx.inputs.len());
                    }
                    return Err(crate::ProcessPegOutSigError::SighashError);
                },
            };
            let tweaked_peer_key = match crate::keys::tweak_public_key(&peer_key, &input.tweak) {
                Some(key) => key,
                None => {
                    proof {
                        assert(crate::keys::spec_tweaked_public_key(
                            peer_key@,
                            psbt@.inputs[i as int].tweak,
                        ) is None);
                    }
                    return Err(crate::ProcessPegOutSigError::InvalidSignature);
                },
            };
            if !crate::keys::ecdsa_verify(&tweaked_peer_key, &sighash, &signature.signature[i]) {
                proof {
                    assert(signature@.signature[i as int] == signature.signature@[i as int]@);
                }
                return Err(crate::ProcessPegOutSigError::InvalidSignature);
            }
            if input.has_sig_for(&tweaked_peer_key) {
                return Err(crate::ProcessPegOutSigError::DuplicateSignature);
            }
            tweaked_keys.push(tweaked_peer_key);
            proof {
                assert(signature@.signature[i as int] == signature.signature@[i as int]@);
            }
            i += 1;
        }
        proof {
            if psbt@.inputs.len() > 0 {
                assert(crate::keys::spec_tweaked_public_key(
                    peer_key@,
                    psbt@.inputs[psbt@.inputs.len() - 1].tweak,
                ) is Some);
                assert(psbt@.inputs.len() - 1 < psbt@.unsigned_tx.inputs.len());
            }
            assert(spec_peer_sign_ok(peer_key@, psbt@, signature@));
        }
        // Second pass: record every signature.
        let mut new_inputs: Vec<crate::psbt::PsbtInputData> = Vec::new();
        let mut k: usize = 0;
        while k < psbt.inputs.len()
            invariant
                psbt == old(psbt),
                peer_key@ == crate::config::spec_peer_key(
                    self.cfg.consensus.peer_peg_in_keys@,
                    peer,
                ).unwrap()@,
                signature@.signature.len() == psbt.inputs@.len(),
                tweaked_keys@.len() == psbt.inputs@.len(),
                forall|j: int|
                    0 <= j < psbt.inputs@.len() ==> #[trigger] tweaked_keys@[j]@
                        == crate::keys::spec_tweaked_public_key(
                        peer_key@,
                        psbt@.inputs[j].tweak,
                    ).unwrap(),
                k <= psbt.inputs@.len(),
                new_inputs@.len() == k,
                forall|j: int|
                    0 <= j < k ==> #[trigger] new_inputs@[j]@ == (crate::psbt::PsbtInputView {
                        witness_utxo: psbt@.inputs[j].witness_utxo,
                        witness_script: psbt@.inputs[j].witness_script,
                        tweak: psbt@.inputs[j].tweak,
                        partial_sigs: psbt@.inputs[j].partial_sigs.push(
                            (tweaked_keys@[j]@, signature@.signature[j]),
                        ),
                    }),
            decreases psbt.inputs@.len() - k,
        {
            let input = &psbt.inputs[k];
            proof {
                assert(input@ == psbt@.inputs[k as int]);
            }
            let mut partial_sigs = crate::stateless::clone_sigs(&input.partial_sigs);
            partial_sigs.push((tweaked_keys[k], signature.signature[k]));
            let rebuilt = crate::psbt::PsbtInputData {
                witness_utxo: crate::tx::TxOutData {
                    value: input.witness_utxo.value,
                    script_pubkey: crate::stateless::clone_bytes(&input.witness_utxo.script_pubkey),
                },
                witness_script: crate::stateless::clone_bytes(&input.witness_script),
                tweak: input.tweak,
                partial_sigs,
            };
            new_inputs.push(rebuilt);
            proof {
                let j = k as int;
                assert(new_inputs@[j]@.partial_sigs =~= psbt@.inputs[j].partial_sigs.push(
                    (tweaked_keys@[j]@, signature@.signature[j]),
                ));
                assert(new_inputs@[j]@ == (crate::psbt::PsbtInputView {
                    witness_utxo: psbt@.inputs[j].witness_utxo,
                    witness_script: psbt@.inputs[j].witness_script,
                    tweak: psbt@.inputs[j].tweak,
                    partial_sigs: psbt@.inputs[j].partial_sigs.push(
                        (tweaked_keys@[j]@, signature@.signature[j]),
                    ),
                }));
            }
            k += 1;
        }
        psbt.inputs = new_inputs;
        proof {
            assert(psbt@.inputs =~= spec_peer_signed_psbt(
                peer_key@,
                old(psbt)@,
                signature@,
            ).inputs);
            assert(psbt@ == spec_peer_signed_psbt(peer_key@, old(psbt)@, signature@));
        }
        Ok(())
    }

    /// Extracts the change tweak and asks the outside finalizer to
    /// assemble the witnesses; on success the transaction is ready to
    /// broadcast. Whether assembly succeeds is the finalizer's
    /// decision; the change tweak handling is exact.
    pub fn finalize_peg_out_psbt(
        &self,
        psbt: &crate::psbt::PsbtData,
        change: u64,
    ) -> (r: Result<crate::PendingTransaction, crate::ProcessPegOutSigError>)
        ensures
            match r {
                Ok(pending) => {
                    &&& crate::psbt::spec_first_output_tweak(psbt@.outputs) == Some(
                        pending.tweak@,
                    )
                    &&& pending.change == change
                    &&& pending.tx@ == psbt@.unsigned_tx
                },
                Err(e) => match e {
                    crate::ProcessPegOutSigError::MissingOrMalformedChangeTweak => {
                        ||| crate::psbt::spec_first_output_tweak(psbt@.outputs) is None
                        ||| crate::psbt::spec_first_output_tweak(psbt@.outputs).unwrap().len()
                            != 32
                    },
                    crate::ProcessPegOutSigError::ErrorFinalizingPsbt => {
                        &&& crate::psbt::spec_first_output_tweak(psbt@.outputs) is Some
                        &&& crate::psbt::spec_first_output_tweak(psbt@.outputs).unwrap().len()
                            == 32
                    },
                    _ => false,
                },
            },
    {
        let tweak_bytes = match crate::psbt::first_output_tweak(psbt) {
            Some(bytes) => bytes,
            None => {
                return Err(crate::ProcessPegOutSigError::MissingOrMalformedChangeTweak);
            },
        };
        if tweak_bytes.len() != 32 {
            return Err(crate::ProcessPegOutSigError::MissingOrMalformedChangeTweak);
        }
        let mut tweak = [0u8; 32];
        let mut i: usize = 0;
        while i < 32
            invariant
                tweak_bytes@.len() == 32,
                i <= 32,
                forall|j: int| 0 <= j < i ==> tweak@[j] == tweak_bytes@[j],
            decreases 32 - i,
        {
            tweak[i] = tweak_bytes[i];
            i += 1;
        }
        proof {
            assert(tweak@ =~= tweak_bytes@);
        }
        let raw_tx = match crate::psbt::realize_and_finalize(psbt) {
            Some(bytes) => bytes,
            None => {
                return Err(crate::ProcessPegOutSigError::ErrorFinalizingPsbt);
            },
        };
        Ok(
            crate::PendingTransaction {
                tx: crate::tx::clone_txdata(&psbt.unsigned_tx),
                raw_tx,
                tweak,
                change,
            },
        )
    }

    /// Folds every delivered item into one queued PSBT and returns
    /// the peers whose contribution was accepted; unknown peers and
    /// failing items are skipped.
    fn collect_signers(
        &self,
        psbt: &mut crate::psbt::PsbtData,
        signatures: &Vec<(PeerId, PegOutSignatureItem)>,
    ) -> (r: Vec<PeerId>)
        ensures
            ({
                let keys = self.cfg.consensus.peer_peg_in_keys@;
                let outcome = spec_process_sigs(
                    keys,
                    old(psbt)@,
                    signatures@.map_values(|s: (PeerId, PegOutSignatureItem)| (s.0, s.1@)),
                );
                &&& final(psbt)@ == outcome.0
                &&& forall|p: PeerId| #[trigger] r@.contains(p) <==> outcome.1.contains(p)
            }),
    {
        let ghost keys = self.cfg.consensus.peer_peg_in_keys@;
        let ghost sigs0 = signatures@.map_values(
            |s: (PeerId, PegOutSignatureItem)| (s.0, s.1@),
        );
        let mut signers: Vec<PeerId> = Vec::new();
        let mut i: usize = 0;
        proof {
            assert(sigs0.skip(0) =~= sigs0);
        }
        while i < signatures.len()
            invariant
                keys == self.cfg.consensus.peer_peg_in_keys@,
                sigs0 == signatures@.map_values(
                    |s: (PeerId, PegOutSignatureItem)| (s.0, s.1@),
                ),
                i <= signatures@.len(),
                spec_process_sigs(keys, old(psbt)@, sigs0).0 == spec_process_sigs(
                    keys,
                    psbt@,
                    sigs0.skip(i as int),
                ).0,
                spec_process_sigs(keys, old(psbt)@, sigs0).1 == spec_process_sigs(
                    keys,
                    psbt@,
                    sigs0.skip(i as int),
                ).1.union(signers@.to_set()),
            decreases signatures@.len() - i,
        {
            let ghost rem = sigs0.skip(i as int);
            proof {
                assert(rem[0] == (signatures@[i as int].0, signatures@[i as int].1@));
                assert(rem.drop_first() =~= sigs0.skip(i + 1));
            }
            let entry = &signatures[i];
            let peer = entry.0;
            match self.cfg.consensus.peer_pubkey(peer) {
                Some(_) => {
                    match self.sign_peg_out_psbt(psbt, peer, &entry.1) {
                        Ok(()) => {
                            let ghost signers_pre = signers@;
                            if !peers_contain(&signers, peer) {
                                signers.push(peer);
                            }
                            proof {
                                assert(signers@.to_set() =~= signers_pre.to_set().insert(peer))
                                    by {
                                    broadcast use vstd::seq_lib::group_seq_properties;

                                    if signers_pre.contains(peer) {
                                        assert(signers@ == signers_pre);
                                        assert(signers_pre.to_set().contains(peer));
                                    } else {
                                        assert(signers@ == signers_pre.push(peer));
                                    }
                                }
                                let inner = spec_process_sigs(keys, psbt@, sigs0.skip(i + 1));
                                assert(spec_process_sigs(keys, old(psbt)@, sigs0).1
                                    =~= inner.1.union(signers@.to_set()));
                            }
                        },
                        Err(_) => {
                        },
                    }
                },
                None => {
                },
            }
            i += 1;
        }
        proof {
            assert(sigs0.skip(sigs0.len() as int).len() == 0);
            assert(spec_process_sigs(keys, psbt@, sigs0.skip(sigs0.len() as int)).1
                =~= Set::<PeerId>::empty());
            assert forall|p: PeerId| #[trigger] signers@.contains(p) <==> spec_process_sigs(
                keys,
                old(psbt)@,
                sigs0,
            ).1.contains(p) by {
                assert(spec_process_sigs(keys, old(psbt)@, sigs0).1 =~= Set::<
                    PeerId,
                >::empty().union(signers@.to_set()));
                assert(signers@.to_set().contains(p) <==> signers@.contains(p));
            }
        }
        signers
    }

    /// Ends an epoch: every queued transaction with delivered
    /// signatures is verified peer by peer, peers that failed to sign
    /// any such transaction are returned for dropping, and each
    /// transaction whose signatures satisfy the outside finalizer
    /// moves from the queue to the pending table (its published
    /// signature item retired with it).
    #[verifier::rlimit(100)]
    pub fn end_consensus_epoch(
        &self,
        consensus_peers: &Vec<PeerId>,
        db: &mut WalletDb,
    ) -> (r: Vec<PeerId>)
        requires
            spec_assoc32_unique(old(db).unsigned_transactions@),
            spec_assoc32_unique(old(db).pending_transactions@),
            spec_assoc32_unique(old(db).peg_out_signature_items@),
        ensures
            final(db).round_consensus == old(db).round_consensus,
            final(db).block_hashes@ == old(db).block_hashes@,
            final(db).utxos@ == old(db).utxos@,
            final(db).peg_out_bitcoin_tx@ == old(db).peg_out_bitcoin_tx@,
            spec_assoc32_unique(final(db).unsigned_transactions@),
            spec_assoc32_unique(final(db).pending_transactions@),
            spec_assoc32_unique(final(db).peg_out_signature_items@),
            // A peer is reported exactly where some queued transaction
            // with delivered signatures lacked its valid contribution.
            forall|p: PeerId| #[trigger] r@.contains(p) <==> exists|j: int|
                0 <= j < old(db).unsigned_transactions@.len()
                    && (#[trigger] old(db).unsigned_transactions@[j].1)@.signatures.len() > 0
                    && consensus_peers@.contains(p) && !spec_tx_signers(
                    self.cfg.consensus.peer_peg_in_keys@,
                    old(db).unsigned_transactions@[j].1@,
                ).contains(p),
            // Every queued transaction either survives unchanged (its
            // published signature item untouched) or moved to the
            // pending table with its change tweak, leaving the queue
            // and retiring its published item.
            forall|j: int|
                0 <= j < old(db).unsigned_transactions@.len() ==> spec_epoch_transition(
                    #[trigger] old(db).unsigned_transactions@[j],
                    final(db).unsigned_transactions@,
                    final(db).pending_transactions@,
                    old(db).peg_out_signature_items@,
                    final(db).peg_out_signature_items@,
                ),
            // Keys that were never queued are untouched in all three
            // tables: nothing else is retired, overwritten, or made
            // pending.
            forall|q: Seq<u8>|
                #[trigger] spec_outside_queue(old(db).unsigned_transactions@, q) ==> {
                    &&& crate::db::spec_assoc32_get(final(db).unsigned_transactions@, q)
                        == crate::db::spec_assoc32_get(old(db).unsigned_transactions@, q)
                    &&& crate::db::spec_assoc32_get(final(db).peg_out_signature_items@, q)
                        == crate::db::spec_assoc32_get(old(db).peg_out_signature_items@, q)
                    &&& crate::db::spec_assoc32_get(final(db).pending_transactions@, q)
                        == crate::db::spec_assoc32_get(old(db).pending_transactions@, q)
                },
            // Nothing new enters the queue: every surviving entry
            // already stood in it when the epoch began.
            exists|witness: Seq<int>| spec_queue_witness(
                witness,
                final(db).unsigned_transactions@,
                old(db).unsigned_transactions@,
            ),
    {
        let ghost keys = self.cfg.consensus.peer_peg_in_keys@;
        let ghost table0 = old(db).unsigned_transactions@;
        let mut queue: Vec<([u8; 32], UnsignedTransaction)> = Vec::new();
        core::mem::swap(&mut queue, &mut db.unsigned_transactions);
        let mut drop_peers: Vec<PeerId> = Vec::new();
        let mut processed_count: usize = 0;
        let ghost mut survivors: Seq<int> = Seq::empty();
        proof {
            assert(queue@ == table0);
            assert(queue@ =~= table0.skip(0));
            assert(queue.len() == table0.len());
            assert(table0.len() <= usize::MAX);
            assert(db.unsigned_transactions@.len() == 0);
            assert forall|q: Seq<u8>| #[trigger] spec_outside_queue(table0, q) implies {
                &&& crate::db::spec_assoc32_get(db.unsigned_transactions@, q)
                    == crate::db::spec_assoc32_get(table0, q)
                &&& crate::db::spec_assoc32_get(db.peg_out_signature_items@, q)
                    == crate::db::spec_assoc32_get(old(db).peg_out_signature_items@, q)
                &&& crate::db::spec_assoc32_get(db.pending_transactions@, q)
                    == crate::db::spec_assoc32_get(old(db).pending_transactions@, q)
            } by {
                crate::db::lemma_assoc32_get_none(table0, q);
                crate::db::lemma_assoc32_get_none(db.unsigned_transactions@, q);
            }
        }
        while queue.len() > 0
            invariant
                keys == self.cfg.consensus.peer_peg_in_keys@,
                table0.len() <= usize::MAX,
                0 <= processed_count <= table0.len(),
                queue@ == table0.skip(processed_count as int),
                spec_assoc32_unique(table0),
                spec_assoc32_unique(db.unsigned_transactions@),
                spec_assoc32_unique(db.pending_transactions@),
                spec_assoc32_unique(db.peg_out_signature_items@),
                db.round_consensus == old(db).round_consensus,
                db.block_hashes@ == old(db).block_hashes@,
                db.utxos@ == old(db).utxos@,
                db.peg_out_bitcoin_tx@ == old(db).peg_out_bitcoin_tx@,
                survivors.len() == db.unsigned_transactions@.len(),
                forall|k: int|
                    0 <= k < survivors.len() ==> 0 <= #[trigger] survivors[k] < processed_count,
                forall|k: int|
                    0 <= k < survivors.len() ==> (#[trigger] db.unsigned_transactions@[k]).0@
                        == table0[survivors[k]].0@ && db.unsigned_transactions@[k].1@
                        == table0[survivors[k]].1@,
                forall|p: PeerId| #[trigger] drop_peers@.contains(p) <==> exists|j: int|
                    0 <= j < processed_count && (#[trigger] table0[j].1)@.signatures.len() > 0
                        && consensus_peers@.contains(p) && !spec_tx_signers(
                        keys,
                        table0[j].1@,
                    ).contains(p),
                forall|j: int|
                    0 <= j < processed_count ==> spec_epoch_transition(
                        #[trigger] table0[j],
                        db.unsigned_transactions@,
                        db.pending_transactions@,
                        old(db).peg_out_signature_items@,
                        db.peg_out_signature_items@,
                    ),
                forall|q: Seq<u8>|
                    #[trigger] spec_outside_queue(table0, q) ==> {
                        &&& crate::db::spec_assoc32_get(db.unsigned_transactions@, q)
                            == crate::db::spec_assoc32_get(table0, q)
                        &&& crate::db::spec_assoc32_get(db.peg_out_signature_items@, q)
                            == crate::db::spec_assoc32_get(old(db).peg_out_signature_items@, q)
                        &&& crate::db::spec_assoc32_get(db.pending_transactions@, q)
                            == crate::db::spec_assoc32_get(old(db).pending_transactions@, q)
                    },
                forall|j: int|
                    processed_count <= j < table0.len() ==> crate::db::spec_assoc32_get(
                        db.peg_out_signature_items@,
                        (#[trigger] table0[j]).0@,
                    ) == crate::db::spec_assoc32_get(
                        old(db).peg_out_signature_items@,
                        table0[j].0@,
                    ),
            decreases queue@.len(),
        {
            let ghost queue_pre = queue@;
            let ghost processed = processed_count as int;
            let ghost drops_before = drop_peers@;
            let entry = queue.remove(0);
            let ghost entry0 = entry;
            proof {
                assert(queue@ =~= queue_pre.drop_first());
                assert(queue@ =~= table0.skip(processed + 1));
                assert(table0.skip(processed)[0] == table0[processed]);
                assert(entry == table0[processed]);
            }
            let txid = entry.0;
            let ghost unsigned_pre = db.unsigned_transactions@;
            let ghost pending_pre = db.pending_transactions@;
            if entry.1.signatures.len() == 0 {
                // Nothing delivered for this one yet: keep it as is.
                proof {
                    assert(entry0.1@.signatures.len() == 0);
                    assert forall|i: int|
                        0 <= i < db.unsigned_transactions@.len()
                            implies #[trigger] db.unsigned_transactions@[i].0@ != entry0.0@ by {
                        assert(db.unsigned_transactions@[i].0@ == table0[survivors[i]].0@);
                        assert(table0[survivors[i]].0@ != table0[processed].0@);
                    }
                    crate::db::lemma_assoc32_get_none(db.unsigned_transactions@, entry0.0@);
                }
                crate::db::assoc32_insert_new(&mut db.unsigned_transactions, entry.0, entry.1);
                proof {
                    assert(processed < table0.len());
                }
                processed_count += 1;
                proof {
                    survivors = survivors.push(processed);
                    assert(db.unsigned_transactions@ =~= unsigned_pre.push(entry0));
                    assert(crate::db::spec_assoc32_get(db.peg_out_signature_items@, entry0.0@)
                        == crate::db::spec_assoc32_get(
                        old(db).peg_out_signature_items@,
                        table0[processed].0@,
                    ));
                    lemma_epoch_transitions_requeue(
                        table0,
                        processed,
                        unsigned_pre,
                        pending_pre,
                        old(db).peg_out_signature_items@,
                        db.peg_out_signature_items@,
                        entry0,
                    );
                    assert forall|q: Seq<u8>| #[trigger] spec_outside_queue(table0, q) implies
                        crate::db::spec_assoc32_get(db.unsigned_transactions@, q)
                        == crate::db::spec_assoc32_get(table0, q) by {
                        assert(q != entry0.0@);
                        crate::db::lemma_assoc32_get_push(unsigned_pre, entry0.0, entry0.1, q);
                    }
                    assert forall|p: PeerId| #[trigger] drop_peers@.contains(p) <==> exists|j: int|
                        0 <= j < processed + 1 && (#[trigger] table0[j].1)@.signatures.len() > 0
                            && consensus_peers@.contains(p) && !spec_tx_signers(
                            keys,
                            table0[j].1@,
                        ).contains(p) by {
                        if drop_peers@.contains(p) {
                            let j = choose|j: int|
                                0 <= j < processed && (#[trigger] table0[j].1)@.signatures.len()
                                    > 0 && consensus_peers@.contains(p) && !spec_tx_signers(
                                    keys,
                                    table0[j].1@,
                                ).contains(p);
                            assert(0 <= j < processed + 1);
                        }
                    }
                }
            } else {
                let mut psbt = crate::psbt::clone_psbt(&entry.1.psbt);
                let signers = self.collect_signers(&mut psbt, &entry.1.signatures);
                let tx_drops = drop_peers_for(consensus_peers, &signers);
                let ghost tx_drops0 = tx_drops@;
                let mut tx_drops = tx_drops;
                drop_peers.append(&mut tx_drops);
                proof {
                    assert(entry0.1@.signatures.len() > 0);
                    assert(entry.1.signatures@.map_values(
                        |s: (PeerId, PegOutSignatureItem)| (s.0, s.1@),
                    ) =~= entry0.1@.signatures);
                    assert(drop_peers@ == drops_before + tx_drops0);
                    assert forall|p: PeerId| #[trigger] drop_peers@.contains(p) <==> (
                    drops_before.contains(p) || tx_drops0.contains(p)) by {
                        if drop_peers@.contains(p) {
                            let ix = choose|ix: int|
                                0 <= ix < drop_peers@.len() && drop_peers@[ix] == p;
                            if ix < drops_before.len() {
                                assert(drops_before[ix] == p);
                            } else {
                                assert(tx_drops0[ix - drops_before.len()] == p);
                            }
                        }
                        if drops_before.contains(p) {
                            let ix = choose|ix: int|
                                0 <= ix < drops_before.len() && drops_before[ix] == p;
                            assert(drop_peers@[ix] == p);
                        }
                        if tx_drops0.contains(p) {
                            let ix = choose|ix: int|
                                0 <= ix < tx_drops0.len() && tx_drops0[ix] == p;
                            assert(drop_peers@[drops_before.len() + ix] == p);
                        }
                    }
                    assert forall|p: PeerId| #[trigger] tx_drops0.contains(p) <==> (
                    consensus_peers@.contains(p) && !spec_tx_signers(
                        keys,
                        table0[processed].1@,
                    ).contains(p)) by {
                        assert(tx_drops0.contains(p) <==> (consensus_peers@.contains(p)
                            && !signers@.contains(p)));
                    }
                    lemma_process_sigs_preserves(keys, entry0.1@.psbt, entry0.1@.signatures);
                }
                let finalize_result = self.finalize_peg_out_psbt(&psbt, entry.1.change);
                match finalize_result {
                    Ok(pending) => {
                        let ghost items_pre = db.peg_out_signature_items@;
                        crate::db::assoc32_set(&mut db.pending_transactions, txid, pending);
                        crate::db::assoc32_remove(&mut db.peg_out_signature_items, &txid);
                        proof {
                            assert(processed < table0.len());
                        }
                        processed_count += 1;
                        proof {
                            let pget = crate::db::spec_assoc32_get(
                                db.pending_transactions@,
                                entry0.0@,
                            );
                            assert(pget is Some);
                            assert(pget.unwrap()@.tx == entry0.1@.psbt.unsigned_tx);
                            assert(pget.unwrap()@.change == entry0.1@.change);
                            assert(Some(pget.unwrap()@.tweak)
                                == crate::psbt::spec_first_output_tweak(
                                entry0.1@.psbt.outputs,
                            ));
                            assert forall|i: int|
                                0 <= i < db.unsigned_transactions@.len()
                                    implies #[trigger] db.unsigned_transactions@[i].0@
                                != entry0.0@ by {
                                assert(db.unsigned_transactions@[i].0@ == table0[
                                    survivors[i]].0@);
                                assert(table0[survivors[i]].0@ != table0[processed].0@);
                            }
                            crate::db::lemma_assoc32_get_none(
                                db.unsigned_transactions@,
                                entry0.0@,
                            );
                            assert forall|j: int|
                                0 <= j < processed + 1 implies spec_epoch_transition(
                                #[trigger] table0[j],
                                db.unsigned_transactions@,
                                db.pending_transactions@,
                                old(db).peg_out_signature_items@,
                                db.peg_out_signature_items@,
                            ) by {
                                if j < processed {
                                    assert(spec_epoch_transition(
                                        table0[j],
                                        unsigned_pre,
                                        pending_pre,
                                        old(db).peg_out_signature_items@,
                                        items_pre,
                                    ));
                                    assert(db.unsigned_transactions@ == unsigned_pre);
                                    assert(table0[j].0@ != entry0.0@);
                                    assert(crate::db::spec_assoc32_get(
                                        db.pending_transactions@,
                                        table0[j].0@,
                                    ) == crate::db::spec_assoc32_get(
                                        pending_pre,
                                        table0[j].0@,
                                    ));
                                    assert(crate::db::spec_assoc32_get(
                                        db.peg_out_signature_items@,
                                        table0[j].0@,
                                    ) == crate::db::spec_assoc32_get(
                                        items_pre,
                                        table0[j].0@,
                                    ));
                                } else {
                                    assert(crate::db::spec_assoc32_get(
                                        db.peg_out_signature_items@,
                                        entry0.0@,
                                    ) is None);
                                    assert(spec_epoch_transition(
                                        table0[processed],
                                        db.unsigned_transactions@,
                                        db.pending_transactions@,
                                        old(db).peg_out_signature_items@,
                                        db.peg_out_signature_items@,
                                    ));
                                }
                            }
                            assert forall|q: Seq<u8>|
                                #[trigger] spec_outside_queue(table0, q) implies {
                                &&& crate::db::spec_assoc32_get(db.peg_out_signature_items@, q)
                                    == crate::db::spec_assoc32_get(
                                    old(db).peg_out_signature_items@,
                                    q,
                                )
                                &&& crate::db::spec_assoc32_get(db.pending_transactions@, q)
                                    == crate::db::spec_assoc32_get(
                                    old(db).pending_transactions@,
                                    q,
                                )
                            } by {
                                assert(q != entry0.0@);
                            }
                            assert forall|j: int|
                                processed + 1 <= j < table0.len()
                                    implies crate::db::spec_assoc32_get(
                                db.peg_out_signature_items@,
                                (#[trigger] table0[j]).0@,
                            ) == crate::db::spec_assoc32_get(
                                old(db).peg_out_signature_items@,
                                table0[j].0@,
                            ) by {
                                assert(table0[j].0@ != entry0.0@);
                            }
                        }
                    },
                    Err(_) => {
                        // Not enough valid signatures yet: keep the
                        // queued transaction untouched.
                        proof {
                            assert forall|i: int|
                                0 <= i < db.unsigned_transactions@.len()
                                    implies #[trigger] db.unsigned_transactions@[i].0@
                                != entry0.0@ by {
                                assert(db.unsigned_transactions@[i].0@ == table0[
                                    survivors[i]].0@);
                                assert(table0[survivors[i]].0@ != table0[processed].0@);
                            }
                            crate::db::lemma_assoc32_get_none(
                                db.unsigned_transactions@,
                                entry0.0@,
                            );
                        }
                        crate::db::assoc32_insert_new(
                            &mut db.unsigned_transactions,
                            entry.0,
                            entry.1,
                        );
                        proof {
                            assert(processed < table0.len());
                        }
                        processed_count += 1;
                        proof {
                            survivors = survivors.push(processed);
                            assert(db.unsigned_transactions@ =~= unsigned_pre.push(entry0));
                            assert(crate::db::spec_assoc32_get(
                                db.peg_out_signature_items@,
                                entry0.0@,
                            ) == crate::db::spec_assoc32_get(
                                old(db).peg_out_signature_items@,
                                table0[processed].0@,
                            ));
                            lemma_epoch_transitions_requeue(
                                table0,
                                processed,
                                unsigned_pre,
                                pending_pre,
                                old(db).peg_out_signature_items@,
                                db.peg_out_signature_items@,
                                entry0,
                            );
                            assert forall|q: Seq<u8>|
                                #[trigger] spec_outside_queue(table0, q) implies
                                crate::db::spec_assoc32_get(db.unsigned_transactions@, q)
                                == crate::db::spec_assoc32_get(table0, q) by {
                                assert(q != entry0.0@);
                                crate::db::lemma_assoc32_get_push(
                                    unsigned_pre,
                                    entry0.0,
                                    entry0.1,
                                    q,
                                );
                            }
                        }
                    },
                }
                proof {
                    assert forall|p: PeerId| #[trigger] drop_peers@.contains(p) <==> exists|j: int|
                        0 <= j < processed + 1 && (#[trigger] table0[j].1)@.signatures.len() > 0
                            && consensus_peers@.contains(p) && !spec_tx_signers(
                            keys,
                            table0[j].1@,
                        ).contains(p) by {
                        if drop_peers@.contains(p) {
                            if drops_before.contains(p) {
                                let j = choose|j: int|
                                    0 <= j < processed && (#[trigger] table0[j].1)@.signatures.len()
                                        > 0 && consensus_peers@.contains(p) && !spec_tx_signers(
                                        keys,
                                        table0[j].1@,
                                    ).contains(p);
                                assert(0 <= j < processed + 1);
                            } else {
                                assert(tx_drops0.contains(p));
                                assert((table0[processed].1)@.signatures.len() > 0);
                            }
                        }
                        if exists|j: int|
                            0 <= j < processed + 1 && (#[trigger] table0[j].1)@.signatures.len()
                                > 0 && consensus_peers@.contains(p) && !spec_tx_signers(
                                keys,
                                table0[j].1@,
                            ).contains(p) {
                            let j = choose|j: int|
                                0 <= j < processed + 1
                                    && (#[trigger] table0[j].1)@.signatures.len() > 0
                                    && consensus_peers@.contains(p)
                                    && !spec_tx_signers(keys, table0[j].1@).contains(p);
                            if j < processed {
                                assert(drops_before.contains(p));
                            } else {
                                assert(tx_drops0.contains(p));
                            }
                        }
                    }
                }
            }
        }
        proof {
            assert(table0.skip(processed_count as int).len() == 0);
            assert(processed_count == table0.len());
            assert(spec_queue_witness(survivors, db.unsigned_transactions@, table0));
        }
        drop_peers
    }

    /// Whether the federation has accepted the block a proof points at.
    pub fn block_is_known(&self, db: &WalletDb, block_hash: &[u8; 32]) -> (r: bool)
        ensures
            r == crate::db::spec_block_known(db.block_hashes@, block_hash@),
    {
        crate::db::block_hashes_contain(&db.block_hashes, block_hash)
    }

    /// Validates a peg-in claim: the proof's block must be accepted,
    /// the proof must check out against the federation descriptor, and
    /// the claimed outpoint must not be claimed already. The reported
    /// amount is the claimed output's value; the fee is the configured
    /// absolute peg-in fee; the claiming key alone may spend the
    /// resulting credit.
    pub fn validate_input(&self, db: &WalletDb, input: &crate::WalletInput) -> (r: Result<
        crate::types::InputMeta,
        WalletError,
    >)
        ensures
            ({
                let proof_view = input.0@;
                let block_known = crate::db::spec_block_known(
                    db.block_hashes@,
                    crate::txoproof::block_hash_of(proof_view.txout_proof_header),
                );
                let valid = crate::txoproof::spec_peg_in_proof_valid(
                    proof_view,
                    self.cfg.consensus.peg_in_descriptor,
                );
                let claimed = crate::db::spec_utxo_contains(
                    db.utxos@,
                    crate::tx::txid_of(proof_view.transaction),
                    proof_view.output_idx,
                );
                match r {
                    Ok(meta) => {
                        &&& block_known
                        &&& valid
                        &&& !claimed
                        &&& meta.amount.amount == crate::types::Amount::spec_from_sats(
                            proof_view.transaction.outputs[proof_view.output_idx as int].value,
                        )
                        &&& meta.amount.fee == self.cfg.consensus.fee_consensus.peg_in_abs
                        &&& meta.puk_keys@.len() == 1
                        &&& meta.puk_keys@[0]@ == proof_view.tweak_contract_key
                    },
                    Err(WalletError::UnknownPegInProofBlock(h)) => !block_known && h@
                        == crate::txoproof::block_hash_of(proof_view.txout_proof_header),
                    Err(WalletError::PegInProofError(_)) => block_known && !valid,
                    Err(WalletError::PegInAlreadyClaimed) => block_known && valid && claimed,
                    Err(_) => false,
                }
            }),
    {
        let block_hash = input.0.proof_block();
        if !self.block_is_known(db, &block_hash) {
            return Err(WalletError::UnknownPegInProofBlock(block_hash));
        }
        match input.0.verify(&self.cfg.consensus.peg_in_descriptor) {
            Ok(()) => (),
            Err(e) => {
                return Err(WalletError::PegInProofError(e));
            },
        }
        let outpoint = input.0.outpoint();
        if crate::db::utxo_get(&db.utxos, &outpoint).is_some() {
            return Err(WalletError::PegInAlreadyClaimed);
        }
        let output = input.0.tx_output();
        let mut puk_keys: Vec<[u8; 32]> = Vec::new();
        puk_keys.push(*input.0.tweak_contract_key());
        proof {
            assert(puk_keys@[0]@ == input.0@.tweak_contract_key);
        }
        Ok(
            crate::types::InputMeta {
                amount: crate::types::TransactionItemAmount {
                    amount: crate::types::Amount::from_sats(output.value),
                    fee: self.cfg.consensus.fee_consensus.peg_in_abs,
                },
                puk_keys,
            },
        )
    }

    /// Credits a peg-in: accepted exactly when validation accepts it,
    /// recording the claimed outpoint as a spendable UTXO under the
    /// claiming key's tweak and reporting the claimed value.
    pub fn apply_input(&self, db: &mut WalletDb, input: &crate::WalletInput) -> (r: Result<
        crate::types::InputMeta,
        WalletError,
    >)
        requires
            crate::db::spec_utxos_unique(old(db).utxos@),
        ensures
            crate::db::spec_utxos_unique(final(db).utxos@),
            final(db).round_consensus == old(db).round_consensus,
            final(db).block_hashes@ == old(db).block_hashes@,
            final(db).unsigned_transactions@ == old(db).unsigned_transactions@,
            final(db).pending_transactions@ == old(db).pending_transactions@,
            final(db).peg_out_signature_items@ == old(db).peg_out_signature_items@,
            final(db).peg_out_bitcoin_tx@ == old(db).peg_out_bitcoin_tx@,
            ({
                let proof_view = input.0@;
                let txid = crate::tx::txid_of(proof_view.transaction);
                let block_known = crate::db::spec_block_known(
                    old(db).block_hashes@,
                    crate::txoproof::block_hash_of(proof_view.txout_proof_header),
                );
                let valid = crate::txoproof::spec_peg_in_proof_valid(
                    proof_view,
                    self.cfg.consensus.peg_in_descriptor,
                );
                let claimed = crate::db::spec_utxo_contains(
                    old(db).utxos@,
                    txid,
                    proof_view.output_idx,
                );
                match r {
                    Ok(meta) => {
                        &&& block_known
                        &&& valid
                        &&& !claimed
                        &&& final(db).utxos@.len() == old(db).utxos@.len() + 1
                        &&& final(db).utxos@.take(old(db).utxos@.len() as int) == old(db).utxos@
                        &&& final(db).utxos@.last().0.txid@ == txid
                        &&& final(db).utxos@.last().0.vout == proof_view.output_idx
                        &&& final(db).utxos@.last().1.tweak@ == proof_view.tweak_contract_key
                        &&& final(db).utxos@.last().1.amount
                            == proof_view.transaction.outputs[proof_view.output_idx as int].value
                        &&& crate::db::spec_utxo_contains(
                            final(db).utxos@,
                            txid,
                            proof_view.output_idx,
                        )
                        &&& meta.amount.amount == crate::types::Amount::spec_from_sats(
                            proof_view.transaction.outputs[proof_view.output_idx as int].value,
                        )
                        &&& meta.amount.fee == self.cfg.consensus.fee_consensus.peg_in_abs
                        &&& meta.puk_keys@.len() == 1
                        &&& meta.puk_keys@[0]@ == proof_view.tweak_contract_key
                    },
                    Err(WalletError::UnknownPegInProofBlock(h)) => !block_known && h@
                        == crate::txoproof::block_hash_of(proof_view.txout_proof_header)
                        && final(db).utxos@ == old(db).utxos@,
                    Err(WalletError::PegInProofError(_)) => block_known && !valid
                        && final(db).utxos@ == old(db).utxos@,
                    Err(WalletError::PegInAlreadyClaimed) => block_known && valid && claimed
                        && final(db).utxos@ == old(db).utxos@,
                    Err(_) => false,
                }
            }),
    {
        let meta = match self.validate_input(db, input) {
            Ok(meta) => meta,
            Err(e) => {
                return Err(e);
            },
        };
        let outpoint = input.0.outpoint();
        let output = input.0.tx_output();
        let utxo = SpendableUTXO { tweak: *input.0.tweak_contract_key(), amount: output.value };
        proof {
            assert(!crate::db::spec_utxo_contains(db.utxos@, outpoint.txid@, outpoint.vout));
        }
        crate::db::utxo_insert_new(&mut db.utxos, outpoint, utxo);
        proof {
            crate::db::lemma_utxo_get_push(
                old(db).utxos@,
                outpoint,
                utxo,
                outpoint.txid@,
                outpoint.vout,
            );
            assert(db.utxos@.take(old(db).utxos@.len() as int) =~= old(db).utxos@);
        }
        Ok(meta)
    }

    /// A copy of the spendable UTXO table, for the stateless builder.
    pub fn available_utxos(&self, db: &WalletDb) -> (r: Vec<
        (crate::types::BitcoinOutPoint, SpendableUTXO),
    >)
        ensures
            r@ == db.utxos@,
    {
        let mut out: Vec<(crate::types::BitcoinOutPoint, SpendableUTXO)> = Vec::with_capacity(
            db.utxos.len(),
        );
        let mut i: usize = 0;
        while i < db.utxos.len()
            invariant
                i <= db.utxos@.len(),
                out@ == db.utxos@.take(i as int),
            decreases db.utxos@.len() - i,
        {
            out.push(db.utxos[i]);
            proof {
                assert(out@ =~= db.utxos@.take(i + 1));
            }
            i += 1;
        }
        proof {
            assert(db.utxos@.take(db.utxos@.len() as int) =~= db.utxos@);
        }
        out
    }

    /// Attempts to build the peg-out transaction a request asks for,
    /// spending the current UTXOs at the requested fee rate, with the
    /// change output tweaked by the current randomness beacon. The
    /// result is exactly [`spec_peg_out_tx`] of the state and request.
    pub fn create_peg_out_tx(&self, db: &WalletDb, peg_out: &crate::PegOut) -> (r: Option<
        UnsignedTransaction,
    >)
        requires
            db.round_consensus is Some,
        ensures
            match r {
                Some(unsigned) => Some(unsigned@) == spec_peg_out_tx(self.cfg, *db, *peg_out),
                None => spec_peg_out_tx(self.cfg, *db, *peg_out) is None,
            },
    {
        let round_consensus = match db.round_consensus {
            Some(rc) => rc,
            None => {
                proof {
                    assert(false);
                }
                return None;
            },
        };
        let change_tweak = round_consensus.randomness_beacon;
        let wallet = self.offline_wallet();
        wallet.create_tx(
            peg_out.amount,
            crate::stateless::clone_bytes(&peg_out.recipient.script_pubkey),
            self.available_utxos(db),
            peg_out.fees.fee_rate,
            &change_tweak,
        )
    }

    /// Validates a withdrawal request: accepted exactly when the
    /// address fits the configured network, the requested fee rate
    /// reaches the consensus floor, and the current UTXOs cover the
    /// request. The reported amount is the requested amount plus its
    /// bitcoin fee; the fee is the configured absolute peg-out fee.
    pub fn validate_output(&self, db: &WalletDb, output: &crate::PegOut) -> (r: Result<
        crate::types::TransactionItemAmount,
        WalletError,
    >)
        requires
            db.round_consensus is Some,
        ensures
            ({
                let network_ok = spec_address_valid_for_network(
                    output.recipient@,
                    self.cfg.consensus.network,
                );
                let floor = db.round_consensus.unwrap().fee_rate;
                let built = spec_peg_out_tx(self.cfg, *db, *output);
                match r {
                    Ok(meta) => {
                        &&& network_ok
                        &&& output.fees.fee_rate.sats_per_kvb >= floor.sats_per_kvb
                        &&& built is Some
                        &&& meta.amount == crate::types::Amount::spec_from_sats(
                            spec_saturating_add_u64(
                                output.amount,
                                output.fees.fee_rate.spec_fee_sats(output.fees.total_weight),
                            ),
                        )
                        &&& meta.fee == self.cfg.consensus.fee_consensus.peg_out_abs
                    },
                    Err(WalletError::WrongNetwork(expected, got)) => !network_ok && expected
                        == self.cfg.consensus.network && got == output.recipient.network,
                    Err(WalletError::PegOutFeeRate(given, floor_rate)) => {
                        &&& network_ok
                        &&& given == output.fees.fee_rate
                        &&& floor_rate == floor
                        &&& given.sats_per_kvb < floor.sats_per_kvb
                    },
                    Err(WalletError::NotEnoughSpendableUTXO) => {
                        &&& network_ok
                        &&& output.fees.fee_rate.sats_per_kvb >= floor.sats_per_kvb
                        &&& built is None
                    },
                    Err(_) => false,
                }
            }),
    {
        if !is_address_valid_for_network(&output.recipient, self.cfg.consensus.network) {
            return Err(
                WalletError::WrongNetwork(self.cfg.consensus.network, output.recipient.network),
            );
        }
        let consensus_fee_rate = match db.round_consensus {
            Some(rc) => rc.fee_rate,
            None => {
                proof {
                    assert(false);
                }
                return Err(WalletError::NotEnoughSpendableUTXO);
            },
        };
        if output.fees.fee_rate.sats_per_kvb < consensus_fee_rate.sats_per_kvb {
            return Err(WalletError::PegOutFeeRate(output.fees.fee_rate, consensus_fee_rate));
        }
        match self.create_peg_out_tx(db, output) {
            Some(_) => (),
            None => {
                return Err(WalletError::NotEnoughSpendableUTXO);
            },
        }
        let fee_sats = output.fees.fee_rate.calculate_fee(output.fees.total_weight);
        let total_sats = match output.amount.checked_add(fee_sats) {
            Some(total) => total,
            None => u64::MAX,
        };
        Ok(
            crate::types::TransactionItemAmount {
                amount: crate::types::Amount::from_sats(total_sats),
                fee: self.cfg.consensus.fee_consensus.peg_out_abs,
            },
        )
    }

    /// Queues a withdrawal: accepted exactly when validation accepts
    /// it and this peer's signing keys derive. On success it builds
    /// the transaction, signs it locally, strips our own signatures
    /// into this peer's signature item, reserves the spent UTXOs, and
    /// records the queued transaction, the published signature item,
    /// and the bitcoin txid the request ended up in. On failure the
    /// state is untouched.
    #[verifier::rlimit(100)]
    pub fn apply_output(
        &self,
        db: &mut WalletDb,
        output: &crate::PegOut,
        out_point: crate::types::OutPoint,
    ) -> (r: Result<crate::types::TransactionItemAmount, WalletError>)
        requires
            old(db).round_consensus is Some,
            crate::db::spec_utxos_unique(old(db).utxos@),
            spec_assoc32_unique(old(db).unsigned_transactions@),
            spec_assoc32_unique(old(db).peg_out_signature_items@),
        ensures
            crate::db::spec_utxos_unique(final(db).utxos@),
            spec_assoc32_unique(final(db).unsigned_transactions@),
            spec_assoc32_unique(final(db).peg_out_signature_items@),
            final(db).round_consensus == old(db).round_consensus,
            final(db).block_hashes@ == old(db).block_hashes@,
            final(db).pending_transactions@ == old(db).pending_transactions@,
            r is Err ==> final(db).utxos@ == old(db).utxos@ && final(db).unsigned_transactions@
                == old(db).unsigned_transactions@ && final(db).peg_out_signature_items@ == old(db).peg_out_signature_items@ && final(db).peg_out_bitcoin_tx@ == old(db).peg_out_bitcoin_tx@,
            ({
                let network_ok = spec_address_valid_for_network(
                    output.recipient@,
                    self.cfg.consensus.network,
                );
                let floor = old(db).round_consensus.unwrap().fee_rate;
                let built = spec_peg_out_tx(self.cfg, *old(db), *output);
                let sk = self.cfg.private.peg_in_key@;
                match r {
                    Ok(meta) => {
                        &&& network_ok
                        &&& output.fees.fee_rate.sats_per_kvb >= floor.sats_per_kvb
                        &&& built is Some
                        &&& crate::stateless::spec_sign_psbt_ok(sk, built.unwrap().psbt)
                        &&& meta.amount == crate::types::Amount::spec_from_sats(
                            spec_saturating_add_u64(
                                output.amount,
                                output.fees.fee_rate.spec_fee_sats(output.fees.total_weight),
                            ),
                        )
                        &&& meta.fee == self.cfg.consensus.fee_consensus.peg_out_abs
                        &&& spec_apply_output_record(
                            self.cfg,
                            *old(db),
                            *final(db),
                            *output,
                            out_point,
                        )
                    },
                    Err(WalletError::WrongNetwork(expected, got)) => !network_ok && expected
                        == self.cfg.consensus.network && got == output.recipient.network,
                    Err(WalletError::PegOutFeeRate(given, floor_rate)) => {
                        &&& network_ok
                        &&& given == output.fees.fee_rate
                        &&& floor_rate == floor
                        &&& given.sats_per_kvb < floor.sats_per_kvb
                    },
                    Err(WalletError::NotEnoughSpendableUTXO) => {
                        &&& network_ok
                        &&& output.fees.fee_rate.sats_per_kvb >= floor.sats_per_kvb
                        &&& built is None
                    },
                    Err(WalletError::TweakingFailed) => {
                        &&& network_ok
                        &&& output.fees.fee_rate.sats_per_kvb >= floor.sats_per_kvb
                        &&& built is Some
                        &&& !crate::stateless::spec_sign_psbt_ok(sk, built.unwrap().psbt)
                    },
                    Err(_) => false,
                }
            }),
    {
        let meta = match self.validate_output(db, output) {
            Ok(meta) => meta,
            Err(e) => {
                return Err(e);
            },
        };
        let unsigned = match self.create_peg_out_tx(db, output) {
            Some(unsigned) => unsigned,
            None => {
                // Validation just built this same deterministic
                // transaction, so this arm cannot be taken.
                proof {
                    assert(false);
                }
                return Err(WalletError::NotEnoughSpendableUTXO);
            },
        };
        let ghost uview = unsigned@;
        proof {
            assert(Some(uview) == spec_peg_out_tx(self.cfg, *old(db), *output));
        }
        let mut signing = crate::psbt::clone_psbt(&unsigned.psbt);
        let wallet = self.offline_wallet();
        if !wallet.sign_psbt(&mut signing) {
            return Err(WalletError::TweakingFailed);
        }
        let ghost sk = self.cfg.private.peg_in_key@;
        proof {
            assert(signing@ == crate::stateless::spec_signed_psbt(sk, uview.psbt));
            let ghost asc = crate::stateless::spec_sort_utxos(old(db).utxos@);
            assert(uview.psbt == crate::stateless::spec_create_tx_sorted(
                self.cfg.consensus.peg_in_descriptor.threshold,
                crate::descriptor::key_views(self.cfg.consensus.peg_in_descriptor.keys@),
                output.amount,
                output.recipient.script_pubkey@,
                asc,
                output.fees.fee_rate,
                old(db).round_consensus.unwrap().randomness_beacon@,
            ).unwrap().psbt);
            assert forall|i: int|
                0 <= i < signing@.inputs.len()
                    implies (#[trigger] signing@.inputs[i]).partial_sigs.len() == 1 by {
                assert(uview.psbt.inputs[i].partial_sigs =~= Seq::<(Seq<u8>, Seq<u8>)>::empty());
            }
        }
        let txid = crate::tx::tx_txid(&unsigned.psbt.unsigned_tx);
        let mut sigs: Vec<[u8; 64]> = Vec::new();
        let mut i: usize = 0;
        while i < signing.inputs.len()
            invariant
                forall|j: int|
                    0 <= j < signing.inputs@.len()
                        ==> (#[trigger] signing@.inputs[j]).partial_sigs.len() == 1,
                i <= signing.inputs@.len(),
                sigs@.len() == i,
                forall|j: int|
                    0 <= j < i ==> #[trigger] sigs@[j]@ == signing@.inputs[j].partial_sigs[0].1,
            decreases signing.inputs@.len() - i,
        {
            proof {
                assert(signing@.inputs[i as int] == signing.inputs@[i as int]@);
                assert(signing@.inputs[i as int].partial_sigs.len() == 1);
            }
            sigs.push(signing.inputs[i].partial_sigs[0].1);
            i += 1;
        }
        let ghost our_sigs = Seq::new(
            uview.psbt.inputs.len(),
            |i: int|
                crate::stateless::spec_signed_psbt(sk, uview.psbt).inputs[i].partial_sigs.last().1,
        );
        proof {
            assert(signing@.inputs.len() == uview.psbt.inputs.len());
            assert(sigs@.len() == uview.psbt.inputs.len());
            assert(sigs@.map_values(|s: [u8; 64]| s@) =~= our_sigs) by {
                assert forall|j: int|
                    0 <= j < uview.psbt.inputs.len() implies sigs@.map_values(|s: [u8; 64]| s@)[j]
                    == #[trigger] our_sigs[j] by {
                    let signed = crate::stateless::spec_signed_psbt(sk, uview.psbt);
                    assert(sigs@.map_values(|s: [u8; 64]| s@)[j] == sigs@[j]@);
                    assert(sigs@[j]@ == signing@.inputs[j].partial_sigs[0].1);
                    assert(uview.psbt.inputs[j].partial_sigs
                        =~= Seq::<(Seq<u8>, Seq<u8>)>::empty());
                    assert(signed.inputs[j].partial_sigs.len() == 1);
                    assert(signed.inputs[j].partial_sigs.last()
                        == signed.inputs[j].partial_sigs[0]);
                }
            }
        }
        let item = PegOutSignatureItem {
            txid,
            signature: crate::stateless::clone_sig_list(&sigs),
        };
        let ghost itemv = item@;
        let mut stored = unsigned;
        let mut our_signature: Vec<(PeerId, PegOutSignatureItem)> = Vec::new();
        our_signature.push((self.cfg.private.our_id, item));
        stored.signatures = our_signature;
        proof {
            assert(stored.signatures@.len() == 1);
            assert(stored@.signatures[0].0 == self.cfg.private.our_id);
            assert(stored@.signatures[0].1 == itemv);
            assert(forall|j: int|
                0 <= j < sigs@.len() ==> #[trigger] itemv.signature[j] == sigs@[j]@);
            assert(stored@.psbt == uview.psbt);
            assert(stored@.change == uview.change);
            assert(stored@.fees == uview.fees);
            assert(itemv.signature.len() == sigs@.len());
            assert(stored@.signatures[0].1.signature =~= our_sigs) by {
                assert forall|j: int|
                    0 <= j < uview.psbt.inputs.len()
                        implies #[trigger] stored@.signatures[0].1.signature[j] == our_sigs[j] by {
                    assert(stored@.signatures[0].1.signature[j] == itemv.signature[j]);
                    assert(itemv.signature[j] == sigs@[j]@);
                    assert(sigs@.map_values(|s: [u8; 64]| s@)[j] == sigs@[j]@);
                }
            }
        }
        // Reserve the spent UTXOs so no later peg-out can double-spend
        // them across epochs.
        let ghost utxos_pre = db.utxos@;
        let mut k: usize = 0;
        while k < stored.psbt.unsigned_tx.inputs.len()
            invariant
                crate::db::spec_utxos_unique(db.utxos@),
                db.round_consensus == old(db).round_consensus,
                db.block_hashes@ == old(db).block_hashes@,
                db.unsigned_transactions@ == old(db).unsigned_transactions@,
                db.pending_transactions@ == old(db).pending_transactions@,
                db.peg_out_signature_items@ == old(db).peg_out_signature_items@,
                db.peg_out_bitcoin_tx@ == old(db).peg_out_bitcoin_tx@,
                spec_assoc32_unique(db.unsigned_transactions@),
                spec_assoc32_unique(db.peg_out_signature_items@),
                k <= stored.psbt.unsigned_tx.inputs@.len(),
                stored@.psbt == uview.psbt,
                forall|j: int|
                    0 <= j < k ==> !crate::db::spec_utxo_contains(
                        db.utxos@,
                        (#[trigger] uview.psbt.unsigned_tx.inputs[j]).prev_txid,
                        uview.psbt.unsigned_tx.inputs[j].prev_vout,
                    ),
            decreases stored.psbt.unsigned_tx.inputs@.len() - k,
        {
            let input = &stored.psbt.unsigned_tx.inputs[k];
            proof {
                assert(input@ == uview.psbt.unsigned_tx.inputs[k as int]);
            }
            let op = crate::types::BitcoinOutPoint {
                txid: input.prev_txid,
                vout: input.prev_vout,
            };
            crate::db::utxo_remove(&mut db.utxos, &op);
            proof {
                assert forall|j: int|
                    0 <= j < k + 1 implies !crate::db::spec_utxo_contains(
                    db.utxos@,
                    (#[trigger] uview.psbt.unsigned_tx.inputs[j]).prev_txid,
                    uview.psbt.unsigned_tx.inputs[j].prev_vout,
                ) by {
                    if j < k {
                        let qt = uview.psbt.unsigned_tx.inputs[j].prev_txid;
                        let qv = uview.psbt.unsigned_tx.inputs[j].prev_vout;
                        if !(qt == op.txid@ && qv == op.vout) {
                        }
                    }
                }
            }
            k += 1;
        }
        let ghost storedv = stored@;
        crate::db::assoc32_set(&mut db.unsigned_transactions, txid, stored);
        proof {
            assert(spec_assoc32_unique(db.unsigned_transactions@));
            assert(crate::db::spec_assoc32_get(db.unsigned_transactions@, txid@) is Some);
            assert(crate::db::spec_assoc32_get(db.unsigned_transactions@, txid@).unwrap()@
                == storedv);
        }
        let ghost sigsv = sigs@;
        crate::db::assoc32_set(&mut db.peg_out_signature_items, txid, sigs);
        proof {
            assert(spec_assoc32_unique(db.peg_out_signature_items@));
            assert(crate::db::spec_assoc32_get(db.peg_out_signature_items@, txid@) is Some);
            assert(crate::db::spec_assoc32_get(db.peg_out_signature_items@, txid@).unwrap()@
                == sigsv);
        }
        let ghost outcomes_pre = db.peg_out_bitcoin_tx@;
        crate::db::outcome_insert(
            &mut db.peg_out_bitcoin_tx,
            out_point,
            crate::WalletOutputOutcome(txid),
        );
        proof {
            assert(outcomes_pre == old(db).peg_out_bitcoin_tx@);
            assert(db.peg_out_bitcoin_tx@ == outcomes_pre.push(
                (out_point, crate::WalletOutputOutcome(txid)),
            ));
            assert(db.peg_out_bitcoin_tx@.take(outcomes_pre.len() as int) =~= outcomes_pre);
        }
        proof {
            assert(txid@ == crate::tx::txid_of(uview.psbt.unsigned_tx));
            assert(spec_apply_output_record(self.cfg, *old(db), *db, *output, out_point)) by {
                assert(spec_peg_out_tx(self.cfg, *old(db), *output).unwrap() == uview);
                assert(crate::db::spec_assoc32_get(db.unsigned_transactions@, txid@).unwrap()@
                    == storedv);
                assert(storedv.signatures[0].1.signature =~= our_sigs);
                assert(crate::db::spec_assoc32_get(db.peg_out_signature_items@, txid@).unwrap()@
                    == sigsv);
                assert(sigsv.map_values(|s: [u8; 64]| s@) =~= our_sigs);
            }
        }
        Ok(meta)
    }

    /// Records the change output of a confirmed peg-out as spendable:
    /// every output of the pending transaction paying the descriptor
    /// tweaked by the transaction's change tweak becomes a UTXO under
    /// that tweak.
    pub fn recognize_change_utxo(&self, db: &mut WalletDb, pending: &crate::PendingTransaction)
        requires
            crate::db::spec_utxos_unique(old(db).utxos@),
            pending.tx.outputs@.len() <= u32::MAX,
        ensures
            crate::db::spec_utxos_unique(final(db).utxos@),
            final(db).round_consensus == old(db).round_consensus,
            final(db).block_hashes@ == old(db).block_hashes@,
            final(db).unsigned_transactions@ == old(db).unsigned_transactions@,
            final(db).pending_transactions@ == old(db).pending_transactions@,
            final(db).peg_out_signature_items@ == old(db).peg_out_signature_items@,
            final(db).peg_out_bitcoin_tx@ == old(db).peg_out_bitcoin_tx@,
            ({
                let spk = crate::descriptor::spec_tweaked_script_pubkey(
                    self.cfg.consensus.peg_in_descriptor.threshold,
                    crate::descriptor::key_views(self.cfg.consensus.peg_in_descriptor.keys@),
                    pending.tweak@,
                );
                let txid = crate::tx::txid_of(pending.tx@);
                match spk {
                    Some(script) => {
                        &&& (forall|idx: int|
                            0 <= idx < pending.tx@.outputs.len() && (
                            #[trigger] pending.tx@.outputs[idx]).script_pubkey == script
                                ==> match crate::db::spec_utxo_get(
                                final(db).utxos@,
                                txid,
                                idx as u32,
                            ) {
                                Some(utxo) => utxo.tweak@ == pending.tweak@ && utxo.amount
                                    == pending.tx@.outputs[idx].value,
                                None => false,
                            })
                        &&& (forall|qt: Seq<u8>, qv: u32|
                            !(qt == txid && qv < pending.tx@.outputs.len()
                                && pending.tx@.outputs[qv as int].script_pubkey == script)
                                ==> #[trigger] crate::db::spec_utxo_get(final(db).utxos@, qt, qv)
                                == crate::db::spec_utxo_get(old(db).utxos@, qt, qv))
                    },
                    None => final(db).utxos@ == old(db).utxos@,
                }
            }),
    {
        let script = match self.cfg.consensus.peg_in_descriptor.tweaked_script_pubkey(
            &pending.tweak,
        ) {
            Some(script) => script,
            None => {
                return ;
            },
        };
        let txid = crate::tx::tx_txid(&pending.tx);
        let ghost spk = script@;
        let ghost txidv = txid@;
        let mut idx: usize = 0;
        while idx < pending.tx.outputs.len()
            invariant
                crate::db::spec_utxos_unique(db.utxos@),
                db.round_consensus == old(db).round_consensus,
                db.block_hashes@ == old(db).block_hashes@,
                db.unsigned_transactions@ == old(db).unsigned_transactions@,
                db.pending_transactions@ == old(db).pending_transactions@,
                db.peg_out_signature_items@ == old(db).peg_out_signature_items@,
                db.peg_out_bitcoin_tx@ == old(db).peg_out_bitcoin_tx@,
                pending.tx.outputs@.len() <= u32::MAX,
                idx <= pending.tx.outputs@.len(),
                spk == script@,
                txidv == txid@,
                txidv == crate::tx::txid_of(pending.tx@),
                forall|j: int|
                    0 <= j < idx && (#[trigger] pending.tx@.outputs[j]).script_pubkey == spk
                        ==> match crate::db::spec_utxo_get(db.utxos@, txidv, j as u32) {
                        Some(utxo) => utxo.tweak@ == pending.tweak@ && utxo.amount
                            == pending.tx@.outputs[j].value,
                        None => false,
                    },
                forall|qt: Seq<u8>, qv: u32|
                    !(qt == txidv && qv < idx && pending.tx@.outputs[qv as int].script_pubkey
                        == spk) ==> #[trigger] crate::db::spec_utxo_get(db.utxos@, qt, qv)
                        == crate::db::spec_utxo_get(old(db).utxos@, qt, qv),
            decreases pending.tx.outputs@.len() - idx,
        {
            let output = &pending.tx.outputs[idx];
            proof {
                assert(output@ == pending.tx@.outputs[idx as int]);
            }
            if crate::types::bytes_vec_equal(&output.script_pubkey, &script) {
                let op = crate::types::BitcoinOutPoint { txid, vout: idx as u32 };
                let utxo = SpendableUTXO { tweak: pending.tweak, amount: output.value };
                crate::db::utxo_upsert(&mut db.utxos, op, utxo);
                proof {
                    assert forall|j: int|
                        0 <= j < idx + 1 && (#[trigger] pending.tx@.outputs[j]).script_pubkey
                        == spk implies match crate::db::spec_utxo_get(
                        db.utxos@,
                        txidv,
                        j as u32,
                    ) {
                        Some(u) => u.tweak@ == pending.tweak@ && u.amount
                            == pending.tx@.outputs[j].value,
                        None => false,
                    } by {
                        if j < idx {
                            assert(!(txidv == op.txid@ && (j as u32) == op.vout));
                        } else {
                            assert(crate::db::spec_utxo_get(db.utxos@, txidv, idx as u32)
                                == Some(utxo));
                        }
                    }
                }
            }
            idx += 1;
        }
    }

    /// Accepts one block: records its hash as canonical, and
    /// recognizes the change of any pending peg-out the block holds:
    /// afterwards, for every transaction of the block that a pending
    /// peg-out matches, the change outputs are spendable.
    pub fn process_block(&self, db: &mut WalletDb, hash: [u8; 32], txdata: &Vec<crate::tx::TxData>)
        requires
            crate::db::spec_utxos_unique(old(db).utxos@),
            spec_pending_coherent(old(db).pending_transactions@),
        ensures
            crate::db::spec_utxos_unique(final(db).utxos@),
            final(db).round_consensus == old(db).round_consensus,
            final(db).unsigned_transactions@ == old(db).unsigned_transactions@,
            final(db).pending_transactions@ == old(db).pending_transactions@,
            final(db).peg_out_signature_items@ == old(db).peg_out_signature_items@,
            final(db).peg_out_bitcoin_tx@ == old(db).peg_out_bitcoin_tx@,
            crate::db::spec_block_known(final(db).block_hashes@, hash@),
            final(db).block_hashes@ == if crate::db::spec_block_known(
                old(db).block_hashes@,
                hash@,
            ) {
                old(db).block_hashes@
            } else {
                old(db).block_hashes@.push(hash)
            },
            forall|t: int|
                0 <= t < txdata@.len() ==> spec_block_tx_recognized(
                    self.cfg,
                    old(db).pending_transactions@,
                    final(db).utxos@,
                    (#[trigger] txdata@[t])@,
                ),
            spec_utxo_frame(
                self.cfg,
                old(db).pending_transactions@,
                old(db).utxos@,
                final(db).utxos@,
            ),
    {
        crate::db::block_hashes_insert(&mut db.block_hashes, hash);
        let ghost pending0 = db.pending_transactions@;
        proof {
            lemma_utxo_frame_refl(self.cfg, pending0, db.utxos@);
        }
        let mut t: usize = 0;
        while t < txdata.len()
            invariant
                crate::db::spec_utxos_unique(db.utxos@),
                spec_pending_coherent(pending0),
                pending0 == old(db).pending_transactions@,
                db.round_consensus == old(db).round_consensus,
                db.unsigned_transactions@ == old(db).unsigned_transactions@,
                db.pending_transactions@ == old(db).pending_transactions@,
                db.peg_out_signature_items@ == old(db).peg_out_signature_items@,
                db.peg_out_bitcoin_tx@ == old(db).peg_out_bitcoin_tx@,
                crate::db::spec_block_known(db.block_hashes@, hash@),
                db.block_hashes@ == if crate::db::spec_block_known(
                    old(db).block_hashes@,
                    hash@,
                ) {
                    old(db).block_hashes@
                } else {
                    old(db).block_hashes@.push(hash)
                },
                t <= txdata@.len(),
                forall|j: int|
                    0 <= j < t ==> spec_block_tx_recognized(
                        self.cfg,
                        pending0,
                        db.utxos@,
                        (#[trigger] txdata@[j])@,
                    ),
                spec_utxo_frame(self.cfg, pending0, old(db).utxos@, db.utxos@),
            decreases txdata@.len() - t,
        {
            let txid = crate::tx::tx_txid(&txdata[t]);
            let found = match crate::db::assoc32_get(&db.pending_transactions, &txid) {
                Some(pending) => Some(crate::clone_pending_transaction(pending)),
                None => None,
            };
            let ghost utxos_pre = db.utxos@;
            match found {
                Some(pending) => {
                    proof {
                        lemma_pending_coherent_get(pending0, txid@);
                        assert(crate::tx::txid_of(pending.tx@) == txid@);
                    }
                    if pending.tx.outputs.len() <= u32::MAX as usize {
                        self.recognize_change_utxo(db, &pending);
                    }
                    proof {
                        let tid = txid@;
                        let porig = crate::db::spec_assoc32_get(pending0, tid).unwrap();
                        assert(porig@ == pending@);
                        assert(spec_utxo_frame(self.cfg, pending0, utxos_pre, db.utxos@)) by {
                            assert forall|qt: Seq<u8>, qv: u32|
                                #[trigger] spec_utxo_change_is_recognition(
                                self.cfg,
                                pending0,
                                utxos_pre,
                                db.utxos@,
                                qt,
                                qv,
                            ) by {
                                if crate::db::spec_utxo_get(db.utxos@, qt, qv)
                                    != crate::db::spec_utxo_get(utxos_pre, qt, qv) {
                                    assert(qt == tid);
                                    assert(crate::db::spec_assoc32_get(pending0, qt)
                                        == Some(porig));
                                }
                            }
                        }
                        lemma_utxo_frame_trans(
                            self.cfg,
                            pending0,
                            old(db).utxos@,
                            utxos_pre,
                            db.utxos@,
                        );
                        assert(spec_block_tx_recognized(
                            self.cfg,
                            pending0,
                            db.utxos@,
                            txdata@[t as int]@,
                        )) by {
                            assert(crate::tx::txid_of(txdata@[t as int]@) == tid);
                        }
                        assert forall|j: int|
                            0 <= j < t + 1 implies spec_block_tx_recognized(
                            self.cfg,
                            pending0,
                            db.utxos@,
                            (#[trigger] txdata@[j])@,
                        ) by {
                            if j < t {
                                let tid_j = crate::tx::txid_of(txdata@[j]@);
                                match crate::db::spec_assoc32_get(pending0, tid_j) {
                                    Some(pj) => {
                                        lemma_pending_coherent_get(pending0, tid_j);
                                        if tid_j == tid {
                                            assert(spec_block_tx_recognized(
                                                self.cfg,
                                                pending0,
                                                db.utxos@,
                                                txdata@[j]@,
                                            ));
                                        } else {
                                            assert(spec_block_tx_recognized(
                                                self.cfg,
                                                pending0,
                                                utxos_pre,
                                                txdata@[j]@,
                                            ));
                                            assert(crate::tx::txid_of(pj.tx@) == tid_j);
                                            assert forall|qv: u32|
                                                true implies #[trigger] crate::db::spec_utxo_get(
                                                db.utxos@,
                                                tid_j,
                                                qv,
                                            ) == crate::db::spec_utxo_get(
                                                utxos_pre,
                                                tid_j,
                                                qv,
                                            ) by {
                                                assert(tid_j != crate::tx::txid_of(pending.tx@));
                                            }
                                        }
                                    },
                                    None => {},
                                }
                            }
                        }
                    }
                },
                None => {
                    proof {
                        assert forall|j: int|
                            0 <= j < t + 1 implies spec_block_tx_recognized(
                            self.cfg,
                            pending0,
                            db.utxos@,
                            (#[trigger] txdata@[j])@,
                        ) by {
                            if j == t {
                                assert(crate::db::spec_assoc32_get(pending0, txid@) is None);
                            }
                        }
                    }
                },
            }
            t += 1;
        }
    }

    /// How many blocks a sync from the given heights must hand in.
    pub fn blocks_to_fetch(&self, old_height: Option<u32>, new_height: u32) -> (r: u32)
        ensures
            r == spec_blocks_to_fetch(old_height, new_height),
    {
        let old = match old_height {
            Some(h) => h,
            None => if new_height >= 10 {
                new_height - 10
            } else {
                0
            },
        };
        if new_height > old {
            new_height - old
        } else {
            0
        }
    }

    /// Advances the chain follower to the new consensus height: the
    /// caller fetches the blocks above the previous height (oldest
    /// first) and each is accepted in turn. Every handed-in block
    /// becomes known, every change output a pending peg-out has in
    /// any of them becomes spendable, nothing but such change enters
    /// the UTXO table, and a sync that has nothing to fetch — the
    /// height already synced, or a lower one — changes nothing (the
    /// follower never rewinds).
    pub fn sync_up_to_consensus_height(
        &self,
        db: &mut WalletDb,
        old_height: Option<u32>,
        new_height: u32,
        blocks: &Vec<BlockData>,
    )
        requires
            crate::db::spec_utxos_unique(old(db).utxos@),
            spec_pending_coherent(old(db).pending_transactions@),
            blocks@.len() == spec_blocks_to_fetch(old_height, new_height),
        ensures
            crate::db::spec_utxos_unique(final(db).utxos@),
            final(db).round_consensus == old(db).round_consensus,
            final(db).unsigned_transactions@ == old(db).unsigned_transactions@,
            final(db).pending_transactions@ == old(db).pending_transactions@,
            final(db).peg_out_signature_items@ == old(db).peg_out_signature_items@,
            final(db).peg_out_bitcoin_tx@ == old(db).peg_out_bitcoin_tx@,
            forall|b: int|
                0 <= b < blocks@.len() ==> crate::db::spec_block_known(
                    final(db).block_hashes@,
                    (#[trigger] blocks@[b]).hash@,
                ),
            forall|h: Seq<u8>|
                crate::db::spec_block_known(old(db).block_hashes@, h)
                    ==> #[trigger] crate::db::spec_block_known(final(db).block_hashes@, h),
            // Only the handed-in blocks become known.
            forall|h: Seq<u8>|
                #[trigger] crate::db::spec_block_known(final(db).block_hashes@, h)
                    ==> crate::db::spec_block_known(old(db).block_hashes@, h) || exists|b: int|
                    0 <= b < blocks@.len() && (#[trigger] blocks@[b]).hash@ == h,
            // Every pending peg-out found in any handed-in block has
            // its change outputs spendable afterwards.
            forall|b: int, t: int|
                0 <= b < blocks@.len() && 0 <= t < blocks@[b].txdata@.len()
                    ==> spec_block_tx_recognized(
                    self.cfg,
                    old(db).pending_transactions@,
                    final(db).utxos@,
                    (#[trigger] blocks@[b].txdata@[t])@,
                ),
            // Nothing but recognized change enters or leaves the
            // UTXO table.
            spec_utxo_frame(
                self.cfg,
                old(db).pending_transactions@,
                old(db).utxos@,
                final(db).utxos@,
            ),
            // A sync with nothing to fetch is a no-op.
            blocks@.len() == 0 ==> final(db).utxos@ == old(db).utxos@ && final(db).block_hashes@
                == old(db).block_hashes@,
    {
        let mut b: usize = 0;
        proof {
            lemma_utxo_frame_refl(self.cfg, db.pending_transactions@, db.utxos@);
        }
        while b < blocks.len()
            invariant
                crate::db::spec_utxos_unique(db.utxos@),
                spec_pending_coherent(db.pending_transactions@),
                db.round_consensus == old(db).round_consensus,
                db.unsigned_transactions@ == old(db).unsigned_transactions@,
                db.pending_transactions@ == old(db).pending_transactions@,
                db.peg_out_signature_items@ == old(db).peg_out_signature_items@,
                db.peg_out_bitcoin_tx@ == old(db).peg_out_bitcoin_tx@,
                b <= blocks@.len(),
                b == 0 ==> db.utxos@ == old(db).utxos@ && db.block_hashes@ == old(
                    db,
                ).block_hashes@,
                forall|j: int|
                    0 <= j < b ==> crate::db::spec_block_known(
                        db.block_hashes@,
                        (#[trigger] blocks@[j]).hash@,
                    ),
                forall|h: Seq<u8>|
                    crate::db::spec_block_known(old(db).block_hashes@, h)
                        ==> #[trigger] crate::db::spec_block_known(db.block_hashes@, h),
                forall|h: Seq<u8>|
                    #[trigger] crate::db::spec_block_known(db.block_hashes@, h)
                        ==> crate::db::spec_block_known(old(db).block_hashes@, h) || exists|
                        j: int,
                    |
                        0 <= j < b && (#[trigger] blocks@[j]).hash@ == h,
                forall|j: int, t: int|
                    0 <= j < b && 0 <= t < blocks@[j].txdata@.len()
                        ==> spec_block_tx_recognized(
                        self.cfg,
                        old(db).pending_transactions@,
                        db.utxos@,
                        (#[trigger] blocks@[j].txdata@[t])@,
                    ),
                spec_utxo_frame(
                    self.cfg,
                    old(db).pending_transactions@,
                    old(db).utxos@,
                    db.utxos@,
                ),
            decreases blocks@.len() - b,
        {
            let ghost hashes_pre = db.block_hashes@;
            let ghost utxos_pre = db.utxos@;
            let ghost pending0 = old(db).pending_transactions@;
            self.process_block(db, blocks[b].hash, &blocks[b].txdata);
            proof {
                assert forall|j: int| 0 <= j < b + 1 implies crate::db::spec_block_known(
                    db.block_hashes@,
                    (#[trigger] blocks@[j]).hash@,
                ) by {
                    if j < b {
                        lemma_block_known_monotone(hashes_pre, db.block_hashes@, blocks@[j].hash@);
                    }
                }
                assert forall|h: Seq<u8>|
                    crate::db::spec_block_known(old(db).block_hashes@, h)
                        implies #[trigger] crate::db::spec_block_known(db.block_hashes@, h) by {
                    lemma_block_known_monotone(hashes_pre, db.block_hashes@, h);
                }
                assert forall|h: Seq<u8>|
                    #[trigger] crate::db::spec_block_known(db.block_hashes@, h)
                        implies crate::db::spec_block_known(old(db).block_hashes@, h) || exists|
                    j: int,
                |
                    0 <= j < b + 1 && (#[trigger] blocks@[j]).hash@ == h by {
                    if db.block_hashes@ == hashes_pre {
                        assert(crate::db::spec_block_known(hashes_pre, h));
                    } else {
                        assert(db.block_hashes@ == hashes_pre.push(blocks@[b as int].hash));
                        let i = choose|i: int|
                            0 <= i < db.block_hashes@.len() && db.block_hashes@[i]@ == h;
                        if i < hashes_pre.len() {
                            assert(hashes_pre[i]@ == h);
                            assert(crate::db::spec_block_known(hashes_pre, h));
                        } else {
                            assert(blocks@[b as int].hash@ == h);
                        }
                    }
                }
                // Claims of earlier blocks survive: a framed change at
                // one of their cells rewrites exactly the recognized
                // value the claim demands.
                assert forall|j: int, t: int|
                    0 <= j < b + 1 && 0 <= t < blocks@[j].txdata@.len()
                        implies spec_block_tx_recognized(
                    self.cfg,
                    pending0,
                    db.utxos@,
                    (#[trigger] blocks@[j].txdata@[t])@,
                ) by {
                    if j < b {
                        assert(spec_block_tx_recognized(
                            self.cfg,
                            pending0,
                            utxos_pre,
                            blocks@[j].txdata@[t]@,
                        ));
                        let tx = blocks@[j].txdata@[t]@;
                        let tid = crate::tx::txid_of(tx);
                        match crate::db::spec_assoc32_get(pending0, tid) {
                            Some(p) => {
                                lemma_pending_coherent_get(pending0, tid);
                                assert(crate::tx::txid_of(p.tx@) == tid);
                                let spk = crate::descriptor::spec_tweaked_script_pubkey(
                                    self.cfg.consensus.peg_in_descriptor.threshold,
                                    crate::descriptor::key_views(
                                        self.cfg.consensus.peg_in_descriptor.keys@,
                                    ),
                                    p.tweak@,
                                );
                                if p.tx@.outputs.len() <= u32::MAX && spk is Some {
                                    assert forall|idx: int|
                                        0 <= idx < p.tx@.outputs.len() && (
                                        #[trigger] p.tx@.outputs[idx]).script_pubkey
                                        == spk.unwrap() implies match crate::db::spec_utxo_get(
                                        db.utxos@,
                                        tid,
                                        idx as u32,
                                    ) {
                                        Some(utxo) => utxo.tweak@ == p.tweak@ && utxo.amount
                                            == p.tx@.outputs[idx].value,
                                        None => false,
                                    } by {
                                        assert(spec_utxo_change_is_recognition(
                                            self.cfg,
                                            pending0,
                                            utxos_pre,
                                            db.utxos@,
                                            tid,
                                            idx as u32,
                                        ));
                                        assert(idx == (idx as u32) as int);
                                    }
                                }
                            },
                            None => {},
                        }
                    }
                }
                lemma_utxo_frame_trans(
                    self.cfg,
                    pending0,
                    old(db).utxos@,
                    utxos_pre,
                    db.utxos@,
                );
            }
            b += 1;
        }
    }

    /// The bitcoin txid an accepted withdrawal request was put into.
    pub fn output_status(&self, db: &WalletDb, out_point: crate::types::OutPoint) -> (r: Option<
        crate::WalletOutputOutcome,
    >)
        ensures
            r == crate::db::spec_outcome_get(db.peg_out_bitcoin_tx@, out_point.txid@,
            out_point.out_idx),
    {
        crate::db::outcome_get(&db.peg_out_bitcoin_tx, &out_point)
    }

    /// The consensus block height, zero before the first epoch (the
    /// public height endpoint).
    pub fn block_height(&self, db: &WalletDb) -> (r: u32)
        ensures
            r == spec_consensus_height(*db),
    {
        match db.round_consensus {
            Some(rc) => rc.block_height,
            None => 0,
        }
    }

    /// The sum of all spendable UTXO values, in satoshi.
    pub fn get_wallet_value(&self, db: &WalletDb) -> (r: u128)
        ensures
            r == spec_utxo_total_sats(db.utxos@),
    {
        let mut total: u128 = 0;
        let mut i: usize = 0;
        while i < db.utxos.len()
            invariant
                i <= db.utxos@.len(),
                total == spec_utxo_total_sats(db.utxos@.take(i as int)),
                total <= i * (u64::MAX as int),
            decreases db.utxos@.len() - i,
        {
            proof {
                assert((i + 1) * (u64::MAX as int) == i * (u64::MAX as int) + u64::MAX)
                    by (nonlinear_arith);
                assert(db.utxos@.take(i + 1).drop_last() =~= db.utxos@.take(i as int));
            }
            total = total + (db.utxos[i].1.amount as u128);
            i += 1;
        }
        proof {
            assert(db.utxos@.take(db.utxos@.len() as int) =~= db.utxos@);
        }
        total
    }

    /// The three balances the auditor adds up: spendable deposits and
    /// the change still owed by queued and pending peg-outs.
    pub fn audit(&self, db: &WalletDb) -> (r: AuditSummary)
        ensures
            r.spendable_sats == spec_utxo_total_sats(db.utxos@),
            r.unsigned_change_sats == spec_unsigned_change_sats(db.unsigned_transactions@),
            r.pending_change_sats == spec_pending_change_sats(db.pending_transactions@),
    {
        let spendable_sats = self.get_wallet_value(db);
        let mut unsigned_change_sats: u128 = 0;
        let mut i: usize = 0;
        while i < db.unsigned_transactions.len()
            invariant
                i <= db.unsigned_transactions@.len(),
                unsigned_change_sats == spec_unsigned_change_sats(
                    db.unsigned_transactions@.take(i as int),
                ),
                unsigned_change_sats <= i * (u64::MAX as int),
            decreases db.unsigned_transactions@.len() - i,
        {
            proof {
                assert((i + 1) * (u64::MAX as int) == i * (u64::MAX as int) + u64::MAX)
                    by (nonlinear_arith);
                assert(db.unsigned_transactions@.take(i + 1).drop_last()
                    =~= db.unsigned_transactions@.take(i as int));
            }
            unsigned_change_sats = unsigned_change_sats + (db.unsigned_transactions[i].1.change
                as u128);
            i += 1;
        }
        let mut pending_change_sats: u128 = 0;
        let mut p: usize = 0;
        while p < db.pending_transactions.len()
            invariant
                p <= db.pending_transactions@.len(),
                pending_change_sats == spec_pending_change_sats(
                    db.pending_transactions@.take(p as int),
                ),
                pending_change_sats <= p * (u64::MAX as int),
            decreases db.pending_transactions@.len() - p,
        {
            proof {
                assert((p + 1) * (u64::MAX as int) == p * (u64::MAX as int) + u64::MAX)
                    by (nonlinear_arith);
                assert(db.pending_transactions@.take(p + 1).drop_last()
                    =~= db.pending_transactions@.take(p as int));
            }
            pending_change_sats = pending_change_sats + (db.pending_transactions[p].1.change
                as u128);
            p += 1;
        }
        proof {
            assert(db.unsigned_transactions@.take(db.unsigned_transactions@.len() as int)
                =~= db.unsigned_transactions@);
            assert(db.pending_transactions@.take(db.pending_transactions@.len() as int)
                =~= db.pending_transactions@);
        }
        AuditSummary { spendable_sats, unsigned_change_sats, pending_change_sats }
    }

    /// The serialized transactions the broadcaster should resubmit to
    /// the bitcoin node; resubmission is idempotent and changes no
    /// state.
    pub fn broadcast_pending_tx(&self, db: &WalletDb) -> (r: Vec<Vec<u8>>)
        ensures
            r@.len() == db.pending_transactions@.len(),
            forall|i: int|
                0 <= i < r@.len() ==> #[trigger] r@[i]@
                    == db.pending_transactions@[i].1.raw_tx@,
    {
        let mut out: Vec<Vec<u8>> = Vec::with_capacity(db.pending_transactions.len());
        let mut i: usize = 0;
        while i < db.pending_transactions.len()
            invariant
                i <= db.pending_transactions@.len(),
                out@.len() == i,
                forall|j: int|
                    0 <= j < i ==> #[trigger] out@[j]@
                        == db.pending_transactions@[j].1.raw_tx@,
            decreases db.pending_transactions@.len() - i,
        {
            out.push(crate::stateless::clone_bytes(&db.pending_transactions[i].1.raw_tx));
            i += 1;
        }
        out
    }

    /// The fees a peg-out of the given amount to the given address
    /// would pay right now, if the UTXOs cover it (the public fee
    /// endpoint).
    pub fn peg_out_fees(&self, db: &WalletDb, address: &crate::types::Address, sats: u64) -> (r:
        Option<crate::PegOutFees>)
        requires
            db.round_consensus is Some,
        ensures
            ({
                let rc = db.round_consensus.unwrap();
                let built = crate::stateless::spec_create_tx(
                    self.cfg.consensus.peg_in_descriptor.threshold,
                    crate::descriptor::key_views(self.cfg.consensus.peg_in_descriptor.keys@),
                    sats,
                    address.script_pubkey@,
                    db.utxos@,
                    rc.fee_rate,
                    rc.randomness_beacon@,
                );
                match r {
                    Some(fees) => built is Some && fees == built.unwrap().fees,
                    None => built is None,
                }
            }),
    {
        let rc = match db.round_consensus {
            Some(rc) => rc,
            None => {
                proof {
                    assert(false);
                }
                return None;
            },
        };
        let wallet = self.offline_wallet();
        match wallet.create_tx(
            sats,
            crate::stateless::clone_bytes(&address.script_pubkey),
            self.available_utxos(db),
            rc.fee_rate,
            &rc.randomness_beacon,
        ) {
            Some(unsigned) => Some(unsigned.fees),
            None => None,
        }
    }

    /// The byte-wise XOR of the peers' randomness contributions.
    pub fn process_randomness_contributions(&self, randomness: &Vec<[u8; 32]>) -> (r: [u8; 32])
        ensures
            r@ == spec_xor_fold(randomness@.map_values(|c: [u8; 32]| c@)),
    {
        let mut beacon = [0u8; 32];
        let mut i: usize = 0;
        proof {
            assert(beacon@ =~= spec_zero32());
            assert(randomness@.map_values(|c: [u8; 32]| c@).take(0) =~= Seq::<Seq<u8>>::empty());
        }
        while i < randomness.len()
            invariant
                i <= randomness@.len(),
                beacon@ == spec_xor_fold(
                    randomness@.map_values(|c: [u8; 32]| c@).take(i as int),
                ),
            decreases randomness@.len() - i,
        {
            let ghost pre = beacon@;
            let contribution = &randomness[i];
            let mut b: usize = 0;
            while b < 32
                invariant
                    b <= 32,
                    beacon@.len() == 32,
                    contribution@ == randomness@[i as int]@,
                    forall|j: int| 0 <= j < b ==> beacon@[j] == (pre[j] ^ contribution@[j]),
                    forall|j: int| b <= j < 32 ==> beacon@[j] == pre[j],
                decreases 32 - b,
            {
                beacon[b] = beacon[b] ^ contribution[b];
                b += 1;
            }
            proof {
                let mapped = randomness@.map_values(|c: [u8; 32]| c@);
                assert(beacon@ =~= spec_xor32(pre, mapped[i as int]));
                assert(mapped.take(i + 1).drop_last() =~= mapped.take(i as int));
                assert(mapped.take(i + 1).last() == mapped[i as int]);
            }
            i += 1;
        }
        proof {
            assert(randomness@.map_values(|c: [u8; 32]| c@).take(randomness@.len() as int)
                =~= randomness@.map_values(|c: [u8; 32]| c@));
        }
        beacon
    }
}

} // verus!
