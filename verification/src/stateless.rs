//! The stateless wallet: pure construction and signing of peg-out
//! transactions. No state is read here; callers hand in the spendable
//! UTXOs and the consensus values.

use vstd::prelude::*;

use crate::descriptor::{
    dust_value_of, key_views, spec_tweaked_script_pubkey, spec_tweaked_witness_script,
    wsh_sortedmulti_max_weight, PegInDescriptor,
};
use crate::types::{BitcoinOutPoint, Feerate};
use crate::{SpendableUTXO, UnsignedTransactionView};

verus! {

/// The amounts of a list of UTXOs, in order.
pub open spec fn spec_utxo_amounts(s: Seq<(BitcoinOutPoint, SpendableUTXO)>) -> Seq<u64> {
    s.map_values(|p: (BitcoinOutPoint, SpendableUTXO)| p.1.amount)
}

/// Inserts a UTXO into an amount-sorted list, after every entry of
/// equal or smaller amount: the insertion point is determined, so the
/// sort below is a function.
pub open spec fn spec_insert_by_amount(
    sorted: Seq<(BitcoinOutPoint, SpendableUTXO)>,
    x: (BitcoinOutPoint, SpendableUTXO),
) -> Seq<(BitcoinOutPoint, SpendableUTXO)>
    decreases sorted.len(),
{
    if sorted.len() == 0 {
        seq![x]
    } else if sorted[0].1.amount <= x.1.amount {
        seq![sorted[0]] + spec_insert_by_amount(sorted.drop_first(), x)
    } else {
        seq![x] + sorted
    }
}

/// The stable amount-ascending reordering of a UTXO list: entries of
/// equal amount keep their original relative order, so the result — and
/// everything built from it — is a function of the input alone.
pub open spec fn spec_sort_utxos(
    s: Seq<(BitcoinOutPoint, SpendableUTXO)>,
) -> Seq<(BitcoinOutPoint, SpendableUTXO)>
    decreases s.len(),
{
    if s.len() == 0 {
        Seq::empty()
    } else {
        spec_insert_by_amount(spec_sort_utxos(s.drop_last()), s.last())
    }
}

/// Inserting at the first index whose amount is larger is exactly the
/// insertion the sort's definition performs.
proof fn lemma_insert_point(
    s: Seq<(BitcoinOutPoint, SpendableUTXO)>,
    x: (BitcoinOutPoint, SpendableUTXO),
    p: int,
)
    requires
        0 <= p <= s.len(),
        forall|j: int| 0 <= j < p ==> (#[trigger] s[j]).1.amount <= x.1.amount,
        p < s.len() ==> s[p].1.amount > x.1.amount,
    ensures
        spec_insert_by_amount(s, x) == s.insert(p, x),
    decreases s.len(),
{
    if p == 0 {
        if s.len() == 0 {
            assert(spec_insert_by_amount(s, x) =~= s.insert(0, x));
        } else {
            assert(s[0].1.amount > x.1.amount);
            assert(spec_insert_by_amount(s, x) =~= s.insert(0, x));
        }
    } else {
        assert(s[0].1.amount <= x.1.amount);
        assert forall|j: int|
            0 <= j < p - 1 implies (#[trigger] s.drop_first()[j]).1.amount <= x.1.amount by {
            assert(s.drop_first()[j] == s[j + 1]);
        }
        assert(p - 1 < s.drop_first().len() ==> s.drop_first()[p - 1].1.amount > x.1.amount);
        lemma_insert_point(s.drop_first(), x, p - 1);
        assert(spec_insert_by_amount(s, x) =~= seq![s[0]] + s.drop_first().insert(p - 1, x));
        assert(seq![s[0]] + s.drop_first().insert(p - 1, x) =~= s.insert(p, x));
    }
}

/// Sorts UTXOs by amount ascending, stably: the result is exactly the
/// canonical reordering [`spec_sort_utxos`] defines.
pub fn sort_utxos_by_amount(v: Vec<(BitcoinOutPoint, SpendableUTXO)>) -> (r: Vec<
    (BitcoinOutPoint, SpendableUTXO),
>)
    ensures
        r@ == spec_sort_utxos(v@),
{
    let mut out: Vec<(BitcoinOutPoint, SpendableUTXO)> = Vec::new();
    let mut i: usize = 0;
    proof {
        assert(v@.take(0).len() == 0);
        assert(out@ =~= spec_sort_utxos(v@.take(0)));
    }
    while i < v.len()
        invariant
            i <= v@.len(),
            out@ == spec_sort_utxos(v@.take(i as int)),
        decreases v@.len() - i,
    {
        let entry = v[i];
        let ghost x = v@[i as int];
        let mut p: usize = 0;
        while p < out.len() && out[p].1.amount <= entry.1.amount
            invariant
                p <= out@.len(),
                entry == x,
                forall|j: int| 0 <= j < p ==> (#[trigger] out@[j]).1.amount <= x.1.amount,
            decreases out@.len() - p,
        {
            p += 1;
        }
        let ghost pre = out@;
        out.insert(p, entry);
        proof {
            lemma_insert_point(pre, x, p as int);
            assert(out@ == pre.insert(p as int, x));
            assert(v@.take(i + 1).drop_last() =~= v@.take(i as int));
            assert(v@.take(i + 1).last() == x);
            assert(out@ == spec_sort_utxos(v@.take(i + 1)));
        }
        i += 1;
    }
    proof {
        assert(v@.take(v@.len() as int) =~= v@);
    }
    out
}

/// The coin-selection recursion, taking amounts from the back (largest
/// first) of the ascending list until the selected value covers the
/// requested amount, the change output's dust floor and the fee at the
/// weight reached. Returns `(taken, selected, weight)` at the stop, or
/// `None` where the UTXOs run out or the weight leaves `u64`.
pub open spec fn spec_select_rec(
    asc: Seq<u64>,
    taken: int,
    selected: int,
    weight: int,
    amount: u64,
    dust: u64,
    rate: Feerate,
    input_weight: int,
) -> Option<(int, int, int)>
    decreases asc.len(),
{
    if !(weight <= u64::MAX) {
        None
    } else if selected >= amount + dust + rate.spec_fee_sats(weight as u64) {
        Some((taken, selected, weight))
    } else if asc.len() == 0 {
        None
    } else {
        spec_select_rec(
            asc.drop_last(),
            taken + 1,
            selected + asc.last(),
            weight + input_weight,
            amount,
            dust,
            rate,
            input_weight,
        )
    }
}

/// The weight accounted for the two outputs paying `destination` and
/// `change_script`: script bytes at four weight units each, a one-byte
/// script length varint and an eight-byte value (32 weight units) per
/// output.
pub open spec fn spec_out_weight(destination: Seq<u8>, change_script: Seq<u8>) -> int {
    (destination.len() as int) * 4 + 1 + 32 + 1 + (change_script.len() as int) * 4 + 32
}

/// The weight of a transaction before any input: version, input and
/// output count varints, the two outputs, and the lock time.
pub open spec fn spec_base_weight(destination: Seq<u8>, change_script: Seq<u8>) -> int {
    16 + 12 + 12 + spec_out_weight(destination, change_script) + 16
}

/// The weight each selected input adds: the descriptor's satisfaction
/// bound plus outpoint and sequence bytes.
pub open spec fn spec_input_weight(max_sat_weight: usize) -> int {
    max_sat_weight + 128 + 16 + 16
}

/// The selected UTXOs after `taken` pops from the back of the
/// ascending list, in pop order (largest first).
pub open spec fn spec_selected(
    asc: Seq<(BitcoinOutPoint, SpendableUTXO)>,
    taken: int,
) -> Seq<(BitcoinOutPoint, SpendableUTXO)> {
    Seq::new(taken as nat, |k: int| asc[asc.len() - 1 - k])
}

/// Whether the tweaked script pubkey and witness script derive for
/// every selected UTXO's tweak.
pub open spec fn spec_input_scripts_ok(
    threshold: usize,
    dkeys: Seq<Seq<u8>>,
    sel: Seq<(BitcoinOutPoint, SpendableUTXO)>,
) -> bool {
    forall|k: int|
        0 <= k < sel.len() ==> (#[trigger] spec_tweaked_script_pubkey(
            threshold,
            dkeys,
            sel[k].1.tweak@,
        )) is Some && spec_tweaked_witness_script(threshold, dkeys, sel[k].1.tweak@) is Some
}

/// The transaction a successful selection builds: version 2, final
/// sequences, zero lock time, the destination and change outputs in
/// that order, the change output alone carrying the proprietary tweak,
/// and each input carrying its UTXO's tweak, tweaked witness UTXO and
/// witness script.
pub open spec fn spec_build_unsigned(
    threshold: usize,
    dkeys: Seq<Seq<u8>>,
    amount: u64,
    destination: Seq<u8>,
    change_script: Seq<u8>,
    sel: Seq<(BitcoinOutPoint, SpendableUTXO)>,
    change: u64,
    rate: Feerate,
    weight: u64,
    tweak: Seq<u8>,
) -> UnsignedTransactionView {
    UnsignedTransactionView {
        psbt: crate::psbt::PsbtView {
            unsigned_tx: crate::tx::TxDataView {
                version: 2,
                lock_time: 0,
                inputs: Seq::new(
                    sel.len(),
                    |k: int|
                        crate::tx::TxInView {
                            prev_txid: sel[k].0.txid@,
                            prev_vout: sel[k].0.vout,
                            sequence: 0xffffffffu32,
                        },
                ),
                outputs: seq![
                    crate::tx::TxOutView { value: amount, script_pubkey: destination },
                    crate::tx::TxOutView { value: change, script_pubkey: change_script },
                ],
            },
            inputs: Seq::new(
                sel.len(),
                |k: int|
                    crate::psbt::PsbtInputView {
                        witness_utxo: crate::tx::TxOutView {
                            value: sel[k].1.amount,
                            script_pubkey: spec_tweaked_script_pubkey(
                                threshold,
                                dkeys,
                                sel[k].1.tweak@,
                            ).unwrap(),
                        },
                        witness_script: spec_tweaked_witness_script(
                            threshold,
                            dkeys,
                            sel[k].1.tweak@,
                        ).unwrap(),
                        tweak: sel[k].1.tweak@,
                        partial_sigs: Seq::empty(),
                    },
            ),
            outputs: seq![
                crate::psbt::PsbtOutputView { tweak: None },
                crate::psbt::PsbtOutputView { tweak: Some(tweak) },
            ],
        },
        signatures: Seq::empty(),
        change,
        fees: crate::PegOutFees { fee_rate: rate, total_weight: weight },
    }
}

/// What `create_tx` returns on a list of UTXOs already sorted by
/// amount ascending: the transaction the algorithm builds, or `None`
/// where the change script or satisfaction weight does not derive, the
/// selection runs out of UTXOs (or out of `u64` weight or change), or
/// a selected UTXO's scripts do not derive.
pub open spec fn spec_create_tx_sorted(
    threshold: usize,
    dkeys: Seq<Seq<u8>>,
    amount: u64,
    destination: Seq<u8>,
    asc: Seq<(BitcoinOutPoint, SpendableUTXO)>,
    rate: Feerate,
    tweak: Seq<u8>,
) -> Option<UnsignedTransactionView> {
    let cs_opt = spec_tweaked_script_pubkey(threshold, dkeys, tweak);
    let msw_opt = wsh_sortedmulti_max_weight(threshold, dkeys);
    if cs_opt is None || msw_opt is None {
        None
    } else {
        let cs = cs_opt.unwrap();
        let dust = dust_value_of(cs);
        let base = spec_base_weight(destination, cs);
        let iw = spec_input_weight(msw_opt.unwrap());
        match spec_select_rec(spec_utxo_amounts(asc), 0, 0, base, amount, dust, rate, iw) {
            Some(stop) => {
                let fees = rate.spec_fee_sats(stop.2 as u64);
                let change = stop.1 - amount - fees;
                let sel = spec_selected(asc, stop.0);
                if change < 0 || change > u64::MAX {
                    None
                } else if !spec_input_scripts_ok(threshold, dkeys, sel) {
                    None
                } else {
                    Some(
                        spec_build_unsigned(
                            threshold,
                            dkeys,
                            amount,
                            destination,
                            cs,
                            sel,
                            change as u64,
                            rate,
                            stop.2 as u64,
                            tweak,
                        ),
                    )
                }
            },
            None => None,
        }
    }
}

/// What `create_tx` returns: the deterministic construction over the
/// stable amount-sorted reordering of the UTXOs. Equal arguments give
/// equal results; there is no other source of variation.
pub open spec fn spec_create_tx(
    threshold: usize,
    dkeys: Seq<Seq<u8>>,
    amount: u64,
    destination: Seq<u8>,
    utxos: Seq<(BitcoinOutPoint, SpendableUTXO)>,
    rate: Feerate,
    tweak: Seq<u8>,
) -> Option<UnsignedTransactionView> {
    spec_create_tx_sorted(threshold, dkeys, amount, destination, spec_sort_utxos(utxos), rate,
    tweak)
}

/// The sum of a sequence equals its first element plus the sum of the
/// rest.
pub proof fn lemma_sum_first(s: Seq<u64>)
    requires
        s.len() > 0,
    ensures
        spec_sum_u64(s) == s[0] + spec_sum_u64(s.drop_first()),
    decreases s.len(),
{
    if s.len() == 1 {
        assert(s.drop_first().len() == 0);
        assert(s.drop_last().len() == 0);
        assert(spec_sum_u64(s) == spec_sum_u64(s.drop_last()) + s.last());
        assert(spec_sum_u64(s.drop_last()) == 0);
        assert(spec_sum_u64(s.drop_first()) == 0);
        assert(s.last() == s[0]);
    } else {
        lemma_sum_first(s.drop_last());
        assert(s.drop_last().drop_first() =~= s.drop_first().drop_last());
        assert(s.drop_first().last() == s.last());
        assert(s.drop_last()[0] == s[0]);
        assert(s.drop_first().len() > 0);
        assert(spec_sum_u64(s.drop_first()) == spec_sum_u64(s.drop_first().drop_last())
            + s.drop_first().last());
        assert(spec_sum_u64(s) == spec_sum_u64(s.drop_last()) + s.last());
    }
}

/// Summing the last `taken` amounts back to front gives the same
/// total as summing the suffix in order.
pub proof fn lemma_sum_reversed_suffix(amts: Seq<u64>, taken: int)
    requires
        0 <= taken <= amts.len(),
    ensures
        spec_sum_u64(Seq::new(taken as nat, |k: int| amts[amts.len() - 1 - k])) == spec_sum_u64(
            amts.skip(amts.len() - taken),
        ),
    decreases taken,
{
    let rev = Seq::new(taken as nat, |k: int| amts[amts.len() - 1 - k]);
    if taken == 0 {
        assert(amts.skip(amts.len() - 0) =~= Seq::<u64>::empty());
    } else {
        lemma_sum_reversed_suffix(amts, taken - 1);
        assert(rev.drop_last() =~= Seq::new((taken - 1) as nat, |k: int| amts[amts.len() - 1 - k]));
        assert(rev.last() == amts[amts.len() - taken]);
        let suffix = amts.skip(amts.len() - taken);
        assert(suffix.len() == taken);
        assert(suffix[0] == amts[amts.len() - taken]);
        lemma_sum_first(suffix);
        assert(suffix.drop_first() =~= amts.skip(amts.len() - (taken - 1)));
    }
}

/// The values a built transaction spends, input by input.
pub open spec fn spec_input_values(inputs: Seq<crate::psbt::PsbtInputView>) -> Seq<u64> {
    Seq::new(inputs.len(), |k: int| inputs[k].witness_utxo.value)
}

/// Law: a successfully built peg-out balances exactly. The values its
/// inputs spend sum to the requested amount plus the fee at the final
/// weight plus the change; its first output pays the requested amount
/// to the destination; its second output pays the change to the
/// descriptor tweaked by the change tweak; and the change output alone
/// carries the proprietary tweak entry, equal to that tweak.
pub proof fn lemma_peg_out_balance(
    threshold: usize,
    dkeys: Seq<Seq<u8>>,
    amount: u64,
    destination: Seq<u8>,
    asc: Seq<(BitcoinOutPoint, SpendableUTXO)>,
    rate: Feerate,
    tweak: Seq<u8>,
)
    requires
        spec_create_tx_sorted(threshold, dkeys, amount, destination, asc, rate, tweak) is Some,
    ensures
        ({
            let u = spec_create_tx_sorted(
                threshold,
                dkeys,
                amount,
                destination,
                asc,
                rate,
                tweak,
            ).unwrap();
            &&& spec_sum_u64(spec_input_values(u.psbt.inputs)) == amount + rate.spec_fee_sats(
                u.fees.total_weight,
            ) + u.change
            &&& u.psbt.unsigned_tx.outputs.len() == 2
            &&& u.psbt.unsigned_tx.outputs[0].value == amount
            &&& u.psbt.unsigned_tx.outputs[0].script_pubkey == destination
            &&& u.psbt.unsigned_tx.outputs[1].value == u.change
            &&& Some(u.psbt.unsigned_tx.outputs[1].script_pubkey) == spec_tweaked_script_pubkey(
                threshold,
                dkeys,
                tweak,
            )
            &&& u.psbt.outputs.len() == 2
            &&& u.psbt.outputs[0].tweak is None
            &&& u.psbt.outputs[1].tweak == Some(tweak)
            &&& u.change >= dust_value_of(spec_tweaked_script_pubkey(
                threshold,
                dkeys,
                tweak,
            ).unwrap())
        }),
{
    let cs = spec_tweaked_script_pubkey(threshold, dkeys, tweak).unwrap();
    let msw = wsh_sortedmulti_max_weight(threshold, dkeys).unwrap();
    let dust = dust_value_of(cs);
    let base = spec_base_weight(destination, cs);
    let iw = spec_input_weight(msw);
    let amts = spec_utxo_amounts(asc);
    lemma_select_rec_props(amts, 0, 0, base, amount, dust, rate, iw);
    let stop = spec_select_rec(amts, 0, 0, base, amount, dust, rate, iw).unwrap();
    let sel = spec_selected(asc, stop.0);
    let u = spec_create_tx_sorted(threshold, dkeys, amount, destination, asc, rate, tweak).unwrap();
    assert(u == spec_build_unsigned(
        threshold,
        dkeys,
        amount,
        destination,
        cs,
        sel,
        (stop.1 - amount - rate.spec_fee_sats(stop.2 as u64)) as u64,
        rate,
        stop.2 as u64,
        tweak,
    ));
    assert(spec_input_values(u.psbt.inputs) =~= Seq::new(
        stop.0 as nat,
        |k: int| amts[amts.len() - 1 - k],
    )) by {
        assert forall|k: int| 0 <= k < stop.0 implies spec_input_values(u.psbt.inputs)[k] == amts[
        amts.len() - 1 - k] by {
            assert(u.psbt.inputs[k].witness_utxo.value == sel[k].1.amount);
            assert(sel[k] == asc[asc.len() - 1 - k]);
            assert(amts[asc.len() - 1 - k] == asc[asc.len() - 1 - k].1.amount);
        }
    }
    lemma_sum_reversed_suffix(amts, stop.0);
    assert(spec_sum_u64(spec_input_values(u.psbt.inputs)) == stop.1);
}

/// A wallet with no state of its own: the descriptor to spend and pay
/// into, and this peer's secret key.
#[derive(Clone, Debug, PartialEq, Eq)]
pub struct StatelessWallet {
    pub descriptor: PegInDescriptor,
    pub secret_key: [u8; 32],
}

impl StatelessWallet {
    /// The script pubkey of the descriptor tweaked by a 32-byte tweak.
    pub fn derive_script(&self, tweak: &[u8; 32]) -> (r: Option<Vec<u8>>)
        ensures
            crate::descriptor::opt_bytes_view(r) == spec_tweaked_script_pubkey(
                self.descriptor.threshold,
                key_views(self.descriptor.keys@),
                tweak@,
            ),
    {
        self.descriptor.tweaked_script_pubkey(tweak)
    }

    /// Attempts to build a peg-out transaction from the available
    /// UTXOs: selects largest-first from the amount-sorted list until
    /// the requested amount, the change dust floor and the re-derived
    /// fee are covered, then builds the PSBT with a tweaked change
    /// output. The result is exactly [`spec_create_tx`] of the
    /// arguments — the construction is a pure function, as a
    /// consensus-critical builder must be. `None` means the UTXOs do
    /// not suffice (or, in corner cases, a script derivation fails or
    /// a value leaves `u64`).
    pub fn create_tx(
        &self,
        peg_out_amount: u64,
        destination: Vec<u8>,
        utxos: Vec<(BitcoinOutPoint, SpendableUTXO)>,
        fee_rate: Feerate,
        change_tweak: &[u8; 32],
    ) -> (r: Option<crate::UnsignedTransaction>)
        ensures
            match r {
                Some(unsigned) => Some(unsigned@) == spec_create_tx(
                    self.descriptor.threshold,
                    key_views(self.descriptor.keys@),
                    peg_out_amount,
                    destination@,
                    utxos@,
                    fee_rate,
                    change_tweak@,
                ),
                None => spec_create_tx(
                    self.descriptor.threshold,
                    key_views(self.descriptor.keys@),
                    peg_out_amount,
                    destination@,
                    utxos@,
                    fee_rate,
                    change_tweak@,
                ) is None,
            },
    {
        let asc = sort_utxos_by_amount(utxos);
        self.create_tx_from_sorted(peg_out_amount, destination, asc, fee_rate, change_tweak)
    }

    /// The selection and construction core, on a list already sorted
    /// by amount ascending.
    fn create_tx_from_sorted(
        &self,
        peg_out_amount: u64,
        destination: Vec<u8>,
        asc: Vec<(BitcoinOutPoint, SpendableUTXO)>,
        fee_rate: Feerate,
        change_tweak: &[u8; 32],
    ) -> (r: Option<crate::UnsignedTransaction>)
        ensures
            match r {
                Some(unsigned) => Some(unsigned@) == spec_create_tx_sorted(
                    self.descriptor.threshold,
                    key_views(self.descriptor.keys@),
                    peg_out_amount,
                    destination@,
                    asc@,
                    fee_rate,
                    change_tweak@,
                ),
                None => spec_create_tx_sorted(
                    self.descriptor.threshold,
                    key_views(self.descriptor.keys@),
                    peg_out_amount,
                    destination@,
                    asc@,
                    fee_rate,
                    change_tweak@,
                ) is None,
            },
    {
        let ghost threshold = self.descriptor.threshold;
        let ghost dkeys = key_views(self.descriptor.keys@);
        let ghost asc0 = asc@;
        let ghost dest0 = destination@;
        let change_script = match self.descriptor.tweaked_script_pubkey(change_tweak) {
            Some(script) => script,
            None => {
                return None;
            },
        };
        let ghost cs0 = change_script@;
        let max_sat_weight = match self.descriptor.max_satisfaction_weight() {
            Some(weight) => weight,
            None => {
                return None;
            },
        };
        let dust: u64 = crate::descriptor::script_dust_value(&change_script);
        let base_weight: u128 = 16 + 12 + 12 + ((destination.len() as u128) * 4 + 1 + 32 + 1 + (
        change_script.len() as u128) * 4 + 32) + 16;
        let input_weight: u128 = (max_sat_weight as u128) + 128 + 16 + 16;
        let ghost base = spec_base_weight(dest0, cs0);
        let ghost iw = spec_input_weight(max_sat_weight);
        proof {
            assert(base_weight == base);
            assert(input_weight == iw);
        }

        let mut selected_utxos: Vec<(BitcoinOutPoint, SpendableUTXO)> = Vec::new();
        let mut taken_count: usize = 0;
        let mut selected: u128 = 0;
        let mut total_weight: u128 = base_weight;
        let mut fees: u64 = 0;
        proof {
            assert(asc0.take(asc0.len() as int) =~= asc0);
            assert(selected_utxos@ =~= spec_selected(asc0, 0));
        }
        loop
            invariant
                asc0 == asc@,
                dest0 == destination@,
                cs0 == change_script@,
                threshold == self.descriptor.threshold,
                dkeys == key_views(self.descriptor.keys@),
                spec_tweaked_script_pubkey(threshold, dkeys, change_tweak@) == Some(cs0),
                wsh_sortedmulti_max_weight(threshold, dkeys) == Some(max_sat_weight),
                base == spec_base_weight(dest0, cs0),
                iw == spec_input_weight(max_sat_weight),
                iw == input_weight,
                dust == dust_value_of(cs0),
                taken_count == selected_utxos@.len(),
                selected_utxos@.len() <= asc0.len(),
                selected_utxos@ =~= spec_selected(asc0, selected_utxos@.len() as int),
                total_weight == base + selected_utxos@.len() * iw,
                selected < 0x4_0000_0000_0000_0000u128,
                spec_select_rec(spec_utxo_amounts(asc0), 0, 0, base, peg_out_amount, dust,
                fee_rate, iw) == spec_select_rec(
                    spec_utxo_amounts(asc0.take(asc0.len() - selected_utxos@.len())),
                    selected_utxos@.len() as int,
                    selected as int,
                    total_weight as int,
                    peg_out_amount,
                    dust,
                    fee_rate,
                    iw,
                ),
            ensures
                asc0 == asc@,
                total_weight <= u64::MAX,
                fees == fee_rate.spec_fee_sats(total_weight as u64),
                selected >= (peg_out_amount as u128) + (dust as u128) + (fees as u128),
                selected < 0x4_0000_0000_0000_0000u128,
                taken_count == selected_utxos@.len(),
                selected_utxos@ =~= spec_selected(asc0, selected_utxos@.len() as int),
                selected_utxos@.len() <= asc0.len(),
                spec_select_rec(spec_utxo_amounts(asc0), 0, 0, base, peg_out_amount, dust,
                fee_rate, iw) == Some(
                    (selected_utxos@.len() as int, selected as int, total_weight as int),
                ),
            decreases asc0.len() - taken_count,
        {
            if total_weight > u64::MAX as u128 {
                return None;
            }
            fees = fee_rate.calculate_fee(total_weight as u64);
            if selected >= (peg_out_amount as u128) + (dust as u128) + (fees as u128) {
                proof {
                    assert(spec_select_rec(
                        spec_utxo_amounts(asc0.take(asc0.len() - selected_utxos@.len())),
                        selected_utxos@.len() as int,
                        selected as int,
                        total_weight as int,
                        peg_out_amount,
                        dust,
                        fee_rate,
                        iw,
                    ) == Some(
                        (selected_utxos@.len() as int, selected as int, total_weight as int),
                    ));
                }
                break ;
            }
            if taken_count >= asc.len() {
                proof {
                    assert(spec_utxo_amounts(asc0.take(asc0.len() - selected_utxos@.len())).len()
                        == 0);
                }
                return None;
            }
            let entry = asc[asc.len() - 1 - taken_count];
            proof {
                let pre = asc0.take(asc0.len() - selected_utxos@.len());
                let amts = spec_utxo_amounts(pre);
                assert(amts.len() > 0);
                assert(entry == pre[pre.len() - 1]);
                assert(amts.last() == entry.1.amount) by {
                    assert(amts[pre.len() - 1] == pre[pre.len() - 1].1.amount);
                }
                assert(spec_utxo_amounts(asc0.take(asc0.len() - (selected_utxos@.len() + 1)))
                    =~= amts.drop_last()) by {
                    assert(asc0.take(asc0.len() - (selected_utxos@.len() + 1)) =~= pre.drop_last());
                }
            }
            let ghost old_count = selected_utxos@.len() as int;
            selected = selected + (entry.1.amount as u128);
            total_weight = total_weight + input_weight;
            selected_utxos.push(entry);
            taken_count += 1;
            proof {
                assert((old_count + 1) * iw == old_count * iw + iw) by (nonlinear_arith);
                assert(selected_utxos@ =~= spec_selected(asc0, selected_utxos@.len() as int)) by {
                    let n = selected_utxos@.len() as int;
                    assert forall|k: int| 0 <= k < n implies selected_utxos@[k] == asc0[asc0.len()
                        - 1 - k] by {
                        if k < n - 1 {
                            assert(selected_utxos@[k] == spec_selected(asc0, n - 1)[k]);
                        }
                    }
                }
            }
        }
        // The loop stopped with enough selected: compute the change.
        let change_u128: u128 = selected - (peg_out_amount as u128) - (fees as u128);
        if change_u128 > u64::MAX as u128 {
            return None;
        }
        let change: u64 = change_u128 as u64;
        let ghost taken = selected_utxos@.len() as int;
        let ghost sel = spec_selected(asc0, taken);

        // Derive the per-input scripts; any failure aborts the build.
        let mut tx_inputs: Vec<crate::tx::TxInData> = Vec::new();
        let mut psbt_inputs: Vec<crate::psbt::PsbtInputData> = Vec::new();
        let mut k: usize = 0;
        while k < selected_utxos.len()
            invariant
                asc0 == asc@,
                dest0 == destination@,
                cs0 == change_script@,
                selected_utxos@ == spec_selected(asc0, selected_utxos@.len() as int),
                taken == selected_utxos@.len() as int,
                sel == spec_selected(asc0, taken),
                threshold == self.descriptor.threshold,
                dkeys == key_views(self.descriptor.keys@),
                base == spec_base_weight(dest0, cs0),
                iw == spec_input_weight(max_sat_weight),
                dust == dust_value_of(cs0),
                spec_tweaked_script_pubkey(threshold, dkeys, change_tweak@) == Some(cs0),
                wsh_sortedmulti_max_weight(threshold, dkeys) == Some(max_sat_weight),
                total_weight <= u64::MAX,
                fees == fee_rate.spec_fee_sats(total_weight as u64),
                change == selected - peg_out_amount - fees,
                spec_select_rec(spec_utxo_amounts(asc0), 0, 0, base, peg_out_amount, dust,
                fee_rate, iw) == Some((taken, selected as int, total_weight as int)),
                k <= selected_utxos@.len(),
                tx_inputs@.len() == k,
                psbt_inputs@.len() == k,
                forall|j: int|
                    0 <= j < k ==> (#[trigger] spec_tweaked_script_pubkey(
                        threshold,
                        dkeys,
                        sel[j].1.tweak@,
                    )) is Some && spec_tweaked_witness_script(threshold, dkeys, sel[j].1.tweak@)
                        is Some,
                forall|j: int|
                    0 <= j < k ==> #[trigger] tx_inputs@[j]@ == (crate::tx::TxInView {
                        prev_txid: sel[j].0.txid@,
                        prev_vout: sel[j].0.vout,
                        sequence: 0xffffffffu32,
                    }),
                forall|j: int|
                    0 <= j < k ==> #[trigger] psbt_inputs@[j]@ == (crate::psbt::PsbtInputView {
                        witness_utxo: crate::tx::TxOutView {
                            value: sel[j].1.amount,
                            script_pubkey: spec_tweaked_script_pubkey(
                                threshold,
                                dkeys,
                                sel[j].1.tweak@,
                            ).unwrap(),
                        },
                        witness_script: spec_tweaked_witness_script(
                            threshold,
                            dkeys,
                            sel[j].1.tweak@,
                        ).unwrap(),
                        tweak: sel[j].1.tweak@,
                        partial_sigs: Seq::empty(),
                    }),
            decreases selected_utxos@.len() - k,
        {
            let utxo = selected_utxos[k];
            proof {
                assert(utxo == sel[k as int]);
            }
            let script_pubkey = match self.descriptor.tweaked_script_pubkey(&utxo.1.tweak) {
                Some(script) => script,
                None => {
                    assert(spec_tweaked_script_pubkey(threshold, dkeys, sel[k as int].1.tweak@)
                        is None);
                    return None;
                },
            };
            let witness_script = match self.descriptor.tweaked_witness_script(&utxo.1.tweak) {
                Some(script) => script,
                None => {
                    assert(spec_tweaked_witness_script(threshold, dkeys, sel[k as int].1.tweak@)
                        is None);
                    return None;
                },
            };
            let ghost spk0 = script_pubkey@;
            let ghost ws0 = witness_script@;
            tx_inputs.push(
                crate::tx::TxInData {
                    prev_txid: utxo.0.txid,
                    prev_vout: utxo.0.vout,
                    sequence: 0xffffffff,
                },
            );
            psbt_inputs.push(
                crate::psbt::PsbtInputData {
                    witness_utxo: crate::tx::TxOutData { value: utxo.1.amount, script_pubkey },
                    witness_script,
                    tweak: utxo.1.tweak,
                    partial_sigs: Vec::new(),
                },
            );
            proof {
                let j = k as int;
                assert(psbt_inputs@[j]@.partial_sigs =~= Seq::<(Seq<u8>, Seq<u8>)>::empty());
                assert(psbt_inputs@[j]@.witness_utxo.script_pubkey == spk0);
                assert(psbt_inputs@[j]@.witness_script == ws0);
                assert(psbt_inputs@[j]@ == (crate::psbt::PsbtInputView {
                    witness_utxo: crate::tx::TxOutView {
                        value: sel[j].1.amount,
                        script_pubkey: spec_tweaked_script_pubkey(
                            threshold,
                            dkeys,
                            sel[j].1.tweak@,
                        ).unwrap(),
                    },
                    witness_script: spec_tweaked_witness_script(
                        threshold,
                        dkeys,
                        sel[j].1.tweak@,
                    ).unwrap(),
                    tweak: sel[j].1.tweak@,
                    partial_sigs: Seq::empty(),
                }));
            }
            k += 1;
        }

        let mut tx_outputs: Vec<crate::tx::TxOutData> = Vec::new();
        tx_outputs.push(crate::tx::TxOutData { value: peg_out_amount, script_pubkey: destination });
        tx_outputs.push(crate::tx::TxOutData { value: change, script_pubkey: change_script });
        let mut psbt_outputs: Vec<crate::psbt::PsbtOutputData> = Vec::new();
        psbt_outputs.push(crate::psbt::PsbtOutputData { tweak: None });
        psbt_outputs.push(
            crate::psbt::PsbtOutputData { tweak: Some(crate::types::bytes32_to_vec(change_tweak)) },
        );

        let unsigned = crate::UnsignedTransaction {
            psbt: crate::psbt::PsbtData {
                unsigned_tx: crate::tx::TxData {
                    version: 2,
                    lock_time: 0,
                    inputs: tx_inputs,
                    outputs: tx_outputs,
                },
                inputs: psbt_inputs,
                outputs: psbt_outputs,
            },
            signatures: Vec::new(),
            change,
            fees: crate::PegOutFees { fee_rate, total_weight: total_weight as u64 },
        };
        proof {
            let expected = spec_build_unsigned(
                threshold,
                dkeys,
                peg_out_amount,
                dest0,
                cs0,
                sel,
                change,
                fee_rate,
                total_weight as u64,
                change_tweak@,
            );
            assert(unsigned@.psbt.unsigned_tx.inputs =~= expected.psbt.unsigned_tx.inputs);
            assert(unsigned@.psbt.unsigned_tx.outputs =~= expected.psbt.unsigned_tx.outputs);
            assert(unsigned@.psbt.inputs =~= expected.psbt.inputs);
            assert(unsigned@.psbt.outputs =~= expected.psbt.outputs);
            assert(unsigned@.signatures =~= expected.signatures);
            assert(unsigned@ == expected);
        }
        Some(unsigned)
    }
}

/// Copies a vector of collected signatures.
pub fn clone_sigs(v: &Vec<([u8; 33], [u8; 64])>) -> (r: Vec<([u8; 33], [u8; 64])>)
    ensures
        r@ == v@,
{
    let mut out: Vec<([u8; 33], [u8; 64])> = Vec::with_capacity(v.len());
    let mut i: usize = 0;
    while i < v.len()
        invariant
            i <= v@.len(),
            out@ == v@.take(i as int),
        decreases v@.len() - i,
    {
        out.push(v[i]);
        proof {
            assert(out@ =~= v@.take(i + 1));
        }
        i += 1;
    }
    proof {
        assert(v@.take(v@.len() as int) =~= v@);
    }
    out
}

/// Copies a list of compact signatures.
pub fn clone_sig_list(v: &Vec<[u8; 64]>) -> (r: Vec<[u8; 64]>)
    ensures
        r@ == v@,
{
    let mut out: Vec<[u8; 64]> = Vec::with_capacity(v.len());
    let mut i: usize = 0;
    while i < v.len()
        invariant
            i <= v@.len(),
            out@ == v@.take(i as int),
        decreases v@.len() - i,
    {
        out.push(v[i]);
        proof {
            assert(out@ =~= v@.take(i + 1));
        }
        i += 1;
    }
    proof {
        assert(v@.take(v@.len() as int) =~= v@);
    }
    out
}

/// Copies a byte vector.
pub fn clone_bytes(v: &Vec<u8>) -> (r: Vec<u8>)
    ensures
        r@ == v@,
{
    let mut out: Vec<u8> = Vec::with_capacity(v.len());
    let mut i: usize = 0;
    while i < v.len()
        invariant
            i <= v@.len(),
            out@ == v@.take(i as int),
        decreases v@.len() - i,
    {
        out.push(v[i]);
        proof {
            assert(out@ =~= v@.take(i + 1));
        }
        i += 1;
    }
    proof {
        assert(v@.take(v@.len() as int) =~= v@);
    }
    out
}

/// The secret key this peer signs one PSBT input with: its own key
/// tweaked by the input's tweak.
pub open spec fn spec_input_signing_key(sk: Seq<u8>, tweak: Seq<u8>) -> Option<Seq<u8>> {
    crate::keys::spec_tweaked_secret_key(sk, crate::keys::public_key_of(sk), tweak)
}

/// The sighash one PSBT input commits to: the BIP143 digest of the
/// unsigned transaction at that input, under the input's witness
/// script and spent value.
pub open spec fn spec_input_sighash(psbt: crate::psbt::PsbtView, i: int) -> Seq<u8> {
    crate::tx::segwit_sighash_of(
        psbt.unsigned_tx,
        i,
        psbt.inputs[i].witness_script,
        psbt.inputs[i].witness_utxo.value,
    )
}

/// Whether this peer can sign every input of a PSBT: its key is in
/// range, every input's tweaked signing key derives and is in range,
/// and every input exists in the unsigned transaction.
pub open spec fn spec_sign_psbt_ok(sk: Seq<u8>, psbt: crate::psbt::PsbtView) -> bool {
    &&& crate::keys::secret_key_in_range(sk)
    &&& psbt.inputs.len() <= psbt.unsigned_tx.inputs.len()
    &&& forall|i: int|
        0 <= i < psbt.inputs.len() ==> (#[trigger] spec_input_signing_key(
            sk,
            psbt.inputs[i].tweak,
        )) is Some && crate::keys::secret_key_in_range(
            spec_input_signing_key(sk, psbt.inputs[i].tweak).unwrap(),
        )
}

/// A PSBT after this peer signed every input: each input gains one
/// signature, under the tweaked public key, over that input's sighash.
pub open spec fn spec_signed_psbt(
    sk: Seq<u8>,
    psbt: crate::psbt::PsbtView,
) -> crate::psbt::PsbtView {
    crate::psbt::PsbtView {
        unsigned_tx: psbt.unsigned_tx,
        inputs: Seq::new(
            psbt.inputs.len(),
            |i: int|
                crate::psbt::PsbtInputView {
                    witness_utxo: psbt.inputs[i].witness_utxo,
                    witness_script: psbt.inputs[i].witness_script,
                    tweak: psbt.inputs[i].tweak,
                    partial_sigs: psbt.inputs[i].partial_sigs.push(
                        (
                            crate::keys::public_key_of(
                                spec_input_signing_key(sk, psbt.inputs[i].tweak).unwrap(),
                            ),
                            crate::keys::ecdsa_signature(
                                spec_input_signing_key(sk, psbt.inputs[i].tweak).unwrap(),
                                spec_input_sighash(psbt, i),
                            ),
                        ),
                    ),
                },
        ),
        outputs: psbt.outputs,
    }
}

impl StatelessWallet {
    /// Signs every input of a PSBT with this peer's tweaked key,
    /// recording the signature under the tweaked public key. Returns
    /// whether signing happened; on `false` (a key does not derive, or
    /// the PSBT is malformed) the PSBT is untouched.
    #[verifier::rlimit(50)]
    pub fn sign_psbt(&self, psbt: &mut crate::psbt::PsbtData) -> (r: bool)
        ensures
            r == spec_sign_psbt_ok(self.secret_key@, old(psbt)@),
            r ==> final(psbt)@ == spec_signed_psbt(self.secret_key@, old(psbt)@),
            !r ==> final(psbt)@ == old(psbt)@,
    {
        let our_pk = match crate::keys::public_key_from_secret(&self.secret_key) {
            Some(pk) => pk,
            None => {
                return false;
            },
        };
        // First pass: derive one (tweaked public key, signature) pair
        // per input, touching nothing on failure.
        let mut sigs: Vec<([u8; 33], [u8; 64])> = Vec::new();
        let mut i: usize = 0;
        while i < psbt.inputs.len()
            invariant
                psbt == old(psbt),
                our_pk@ == crate::keys::public_key_of(self.secret_key@),
                crate::keys::secret_key_in_range(self.secret_key@),
                i <= psbt.inputs@.len(),
                sigs@.len() == i,
                forall|j: int|
                    0 <= j < i ==> (#[trigger] spec_input_signing_key(
                        self.secret_key@,
                        psbt@.inputs[j].tweak,
                    )) is Some && crate::keys::secret_key_in_range(
                        spec_input_signing_key(self.secret_key@, psbt@.inputs[j].tweak).unwrap(),
                    ) && j < psbt@.unsigned_tx.inputs.len(),
                forall|j: int|
                    0 <= j < i ==> #[trigger] sigs@[j].0@ == crate::keys::public_key_of(
                        spec_input_signing_key(self.secret_key@, psbt@.inputs[j].tweak).unwrap(),
                    ) && sigs@[j].1@ == crate::keys::ecdsa_signature(
                        spec_input_signing_key(self.secret_key@, psbt@.inputs[j].tweak).unwrap(),
                        spec_input_sighash(psbt@, j),
                    ),
            decreases psbt.inputs@.len() - i,
        {
            let input = &psbt.inputs[i];
            proof {
                assert(input@ == psbt@.inputs[i as int]);
            }
            let tweaked_secret = match crate::keys::tweak_secret_key(
                &self.secret_key,
                &our_pk,
                &input.tweak,
            ) {
                Some(key) => key,
                None => {
                    return false;
                },
            };
            let sighash = match crate::tx::tx_segwit_sighash(
                &psbt.unsigned_tx,
                i,
                &input.witness_script,
                input.witness_utxo.value,
            ) {
                Some(hash) => hash,
                None => {
                    proof {
                        assert(psbt@.unsigned_tx.inputs.len() <= i);
                        assert(psbt@.inputs.len() > psbt@.unsigned_tx.inputs.len());
                        assert(!spec_sign_psbt_ok(self.secret_key@, psbt@));
                    }
                    return false;
                },
            };
            let tweaked_pk = match crate::keys::public_key_from_secret(&tweaked_secret) {
                Some(pk) => pk,
                None => {
                    proof {
                        assert(spec_input_signing_key(self.secret_key@, psbt@.inputs[i as int].tweak)
                            == Some(tweaked_secret@));
                        assert(!crate::keys::secret_key_in_range(tweaked_secret@));
                        assert(!spec_sign_psbt_ok(self.secret_key@, psbt@));
                    }
                    return false;
                },
            };
            let signature = match crate::keys::ecdsa_sign(&tweaked_secret, &sighash) {
                Some(sig) => sig,
                None => {
                    return false;
                },
            };
            sigs.push((tweaked_pk, signature));
            proof {
                let j = i as int;
                assert(sigs@[j] == (tweaked_pk, signature));
                assert(sigs@[j].0@ == crate::keys::public_key_of(tweaked_secret@));
                assert(spec_input_signing_key(self.secret_key@, psbt@.inputs[j].tweak) == Some(
                    tweaked_secret@,
                ));
                assert(sigs@[j].1@ == crate::keys::ecdsa_signature(tweaked_secret@, sighash@));
                assert(sighash@ == spec_input_sighash(psbt@, j));
            }
            i += 1;
        }
        proof {
            if psbt@.inputs.len() > 0 {
                assert(spec_input_signing_key(
                    self.secret_key@,
                    psbt@.inputs[psbt@.inputs.len() - 1].tweak,
                ) is Some);
                assert(psbt@.inputs.len() - 1 < psbt@.unsigned_tx.inputs.len());
            }
            assert(spec_sign_psbt_ok(self.secret_key@, psbt@));
        }
        // Second pass: record each signature on its input.
        let mut new_inputs: Vec<crate::psbt::PsbtInputData> = Vec::new();
        let mut k: usize = 0;
        while k < psbt.inputs.len()
            invariant
                psbt == old(psbt),
                k <= psbt.inputs@.len(),
                sigs@.len() == psbt.inputs@.len(),
                new_inputs@.len() == k,
                forall|j: int|
                    0 <= j < k ==> #[trigger] new_inputs@[j]@ == (crate::psbt::PsbtInputView {
                        witness_utxo: psbt@.inputs[j].witness_utxo,
                        witness_script: psbt@.inputs[j].witness_script,
                        tweak: psbt@.inputs[j].tweak,
                        partial_sigs: psbt@.inputs[j].partial_sigs.push(
                            (sigs@[j].0@, sigs@[j].1@),
                        ),
                    }),
            decreases psbt.inputs@.len() - k,
        {
            let input = &psbt.inputs[k];
            proof {
                assert(input@ == psbt@.inputs[k as int]);
            }
            let mut partial_sigs = clone_sigs(&input.partial_sigs);
            partial_sigs.push(sigs[k]);
            let rebuilt = crate::psbt::PsbtInputData {
                witness_utxo: crate::tx::TxOutData {
                    value: input.witness_utxo.value,
                    script_pubkey: clone_bytes(&input.witness_utxo.script_pubkey),
                },
                witness_script: clone_bytes(&input.witness_script),
                tweak: input.tweak,
                partial_sigs,
            };
            new_inputs.push(rebuilt);
            proof {
                let j = k as int;
                assert(new_inputs@[j]@.partial_sigs =~= psbt@.inputs[j].partial_sigs.push(
                    (sigs@[j].0@, sigs@[j].1@),
                ));
                assert(new_inputs@[j]@ == (crate::psbt::PsbtInputView {
                    witness_utxo: psbt@.inputs[j].witness_utxo,
                    witness_script: psbt@.inputs[j].witness_script,
                    tweak: psbt@.inputs[j].tweak,
                    partial_sigs: psbt@.inputs[j].partial_sigs.push((sigs@[j].0@, sigs@[j].1@)),
                }));
            }
            k += 1;
        }
        psbt.inputs = new_inputs;
        proof {
            assert(psbt@.inputs =~= spec_signed_psbt(self.secret_key@, old(psbt)@).inputs);
            assert(psbt@ == spec_signed_psbt(self.secret_key@, old(psbt)@));
        }
        true
    }
}

/// The sum of a sequence of amounts.
pub open spec fn spec_sum_u64(s: Seq<u64>) -> int
    decreases s.len(),
{
    if s.len() == 0 {
        0
    } else {
        spec_sum_u64(s.drop_last()) + s.last()
    }
}

/// What a successful selection guarantees: the stop state covers the
/// target at the final fee, the count taken is at most the list's
/// length, the selected value is the initial value plus the sum of the
/// amounts taken from the back, and the weight grew by one input
/// weight per take.
pub proof fn lemma_select_rec_props(
    asc: Seq<u64>,
    taken: int,
    selected: int,
    weight: int,
    amount: u64,
    dust: u64,
    rate: Feerate,
    input_weight: int,
)
    requires
        spec_select_rec(asc, taken, selected, weight, amount, dust, rate, input_weight) is Some,
    ensures
        ({
            let stop = spec_select_rec(
                asc,
                taken,
                selected,
                weight,
                amount,
                dust,
                rate,
                input_weight,
            ).unwrap();
            &&& taken <= stop.0 <= taken + asc.len()
            &&& stop.2 <= u64::MAX
            &&& stop.1 >= amount + dust + rate.spec_fee_sats(stop.2 as u64)
            &&& stop.1 == selected + spec_sum_u64(asc.skip(asc.len() - (stop.0 - taken)))
            &&& stop.2 == weight + (stop.0 - taken) * input_weight
        }),
    decreases asc.len(),
{
    let stop = spec_select_rec(asc, taken, selected, weight, amount, dust, rate, input_weight).unwrap();
    if !(weight <= u64::MAX) {
    } else if selected >= amount + dust + rate.spec_fee_sats(weight as u64) {
        assert(asc.skip(asc.len() - (stop.0 - taken)) =~= Seq::<u64>::empty());
    } else if asc.len() == 0 {
    } else {
        lemma_select_rec_props(
            asc.drop_last(),
            taken + 1,
            selected + asc.last(),
            weight + input_weight,
            amount,
            dust,
            rate,
            input_weight,
        );
        let inner = asc.drop_last();
        let m = stop.0 - (taken + 1);
        assert(stop.1 == selected + asc.last() + spec_sum_u64(inner.skip(inner.len() - m)));
        assert(asc.skip(asc.len() - (stop.0 - taken)).drop_last() =~= inner.skip(inner.len() - m));
        assert(inner.len() - m >= 0);
        assert(spec_sum_u64(asc.skip(asc.len() - (stop.0 - taken))) == spec_sum_u64(
            inner.skip(inner.len() - m),
        ) + asc.last()) by {
            assert(asc.skip(asc.len() - (stop.0 - taken)).last() == asc.last());
        }
        assert(stop.2 == (weight + input_weight) + m * input_weight);
        assert((m + 1) * input_weight == m * input_weight + input_weight) by (nonlinear_arith);
    }
}

} // verus!
