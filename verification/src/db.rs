//! The wallet's persisted state, modelled as plain association lists
//! keyed the way the database tables are keyed. A surrounding host
//! owns durability; every rule about what the tables hold is stated
//! and verified here over these values.

use vstd::prelude::*;

use crate::types::{bytes32_equal, BitcoinOutPoint, OutPoint};
use crate::{
    PendingTransaction, RoundConsensus, SpendableUTXO, UnsignedTransaction, WalletOutputOutcome,
};

verus! {

/// Looks a key up in an association list keyed by 32-byte ids; first
/// match wins (well-formed lists have unique keys).
pub open spec fn spec_assoc32_get<V>(s: Seq<([u8; 32], V)>, k: Seq<u8>) -> Option<V>
    decreases s.len(),
{
    if s.len() == 0 {
        None
    } else if s[0].0@ == k {
        Some(s[0].1)
    } else {
        spec_assoc32_get(s.drop_first(), k)
    }
}

pub open spec fn spec_assoc32_contains<V>(s: Seq<([u8; 32], V)>, k: Seq<u8>) -> bool {
    spec_assoc32_get(s, k) is Some
}

/// Whether the list's keys are pairwise distinct.
pub open spec fn spec_assoc32_unique<V>(s: Seq<([u8; 32], V)>) -> bool {
    forall|i: int, j: int| 0 <= i < j < s.len() ==> s[i].0@ != s[j].0@
}

/// A lookup walks the list front to back; the entry it returns is the
/// first whose key matches.
pub proof fn lemma_assoc32_get_index<V>(s: Seq<([u8; 32], V)>, k: Seq<u8>, i: int)
    requires
        0 <= i < s.len(),
        s[i].0@ == k,
        forall|j: int| 0 <= j < i ==> s[j].0@ != k,
    ensures
        spec_assoc32_get(s, k) == Some(s[i].1),
    decreases i,
{
    if i == 0 {
    } else {
        assert(s[0].0@ != k);
        assert(s.drop_first()[i - 1] == s[i]);
        assert forall|j: int| 0 <= j < i - 1 implies s.drop_first()[j].0@ != k by {
            assert(s.drop_first()[j] == s[j + 1]);
        }
        lemma_assoc32_get_index(s.drop_first(), k, i - 1);
    }
}

/// A key that matches no entry is absent.
pub proof fn lemma_assoc32_get_none<V>(s: Seq<([u8; 32], V)>, k: Seq<u8>)
    requires
        forall|j: int| 0 <= j < s.len() ==> s[j].0@ != k,
    ensures
        spec_assoc32_get(s, k) is None,
    decreases s.len(),
{
    if s.len() > 0 {
        assert forall|j: int| 0 <= j < s.len() - 1 implies s.drop_first()[j].0@ != k by {
            assert(s.drop_first()[j] == s[j + 1]);
        }
        lemma_assoc32_get_none(s.drop_first(), k);
    }
}

/// Appending a fresh entry leaves every other key's lookup unchanged
/// and makes the new key's lookup return the new value.
pub proof fn lemma_assoc32_get_push<V>(s: Seq<([u8; 32], V)>, k: [u8; 32], v: V, q: Seq<u8>)
    ensures
        spec_assoc32_get(s, q) is Some ==> spec_assoc32_get(s.push((k, v)), q)
            == spec_assoc32_get(s, q),
        spec_assoc32_get(s, q) is None && q == k@ ==> spec_assoc32_get(s.push((k, v)), q)
            == Some(v),
        spec_assoc32_get(s, q) is None && q != k@ ==> spec_assoc32_get(s.push((k, v)), q)
            is None,
    decreases s.len(),
{
    if s.len() == 0 {
        assert(s.push((k, v))[0] == (k, v));
        assert(s.push((k, v)).drop_first() =~= Seq::<([u8; 32], V)>::empty());
    } else {
        assert(s.push((k, v))[0] == s[0]);
        assert(s.push((k, v)).drop_first() =~= s.drop_first().push((k, v)));
        lemma_assoc32_get_push(s.drop_first(), k, v, q);
    }
}

/// Finds the value stored under a 32-byte key.
pub fn assoc32_get<'a, V>(s: &'a Vec<([u8; 32], V)>, k: &[u8; 32]) -> (r: Option<&'a V>)
    ensures
        match r {
            Some(v) => spec_assoc32_get(s@, k@) == Some(*v),
            None => spec_assoc32_get(s@, k@) is None,
        },
{
    let mut i: usize = 0;
    while i < s.len()
        invariant
            i <= s@.len(),
            forall|j: int| 0 <= j < i ==> s@[j].0@ != k@,
        decreases s@.len() - i,
    {
        if bytes32_equal(&s[i].0, k) {
            proof {
                lemma_assoc32_get_index(s@, k@, i as int);
            }
            return Some(&s[i].1);
        }
        i += 1;
    }
    proof {
        lemma_assoc32_get_none(s@, k@);
    }
    None
}

/// Whether the list holds the key.
pub fn assoc32_contains<V>(s: &Vec<([u8; 32], V)>, k: &[u8; 32]) -> (r: bool)
    ensures
        r == spec_assoc32_contains(s@, k@),
{
    match assoc32_get(s, k) {
        Some(_) => true,
        None => false,
    }
}

/// Appends an entry under a key that must not be present yet.
pub fn assoc32_insert_new<V>(s: &mut Vec<([u8; 32], V)>, k: [u8; 32], v: V)
    requires
        !spec_assoc32_contains(old(s)@, k@),
    ensures
        final(s)@ == old(s)@.push((k, v)),
        spec_assoc32_unique(old(s)@) ==> spec_assoc32_unique(final(s)@),
{
    proof {
        lemma_assoc32_absent_no_index(old(s)@, k@);
    }
    s.push((k, v));
    proof {
        if spec_assoc32_unique(old(s)@) {
            assert forall|i: int, j: int| 0 <= i < j < s@.len() implies s@[i].0@ != s@[j].0@ by {
                if j < s@.len() - 1 {
                    assert(s@[i] == old(s)@[i]);
                    assert(s@[j] == old(s)@[j]);
                } else {
                    assert(s@[i] == old(s)@[i]);
                    assert(s@[j] == (k, v));
                }
            }
        }
    }
}

/// Inserts a value, replacing any entry already stored at the key.
pub fn assoc32_set<V>(s: &mut Vec<([u8; 32], V)>, k: [u8; 32], v: V)
    ensures
        spec_assoc32_get(final(s)@, k@) == Some(v),
        forall|q: Seq<u8>| q != k@ ==> spec_assoc32_get(final(s)@, q) == spec_assoc32_get(
            old(s)@,
            q,
        ),
        spec_assoc32_unique(old(s)@) ==> spec_assoc32_unique(final(s)@),
        final(s)@.len() == if spec_assoc32_contains(old(s)@, k@) {
            old(s)@.len()
        } else {
            old(s)@.len() + 1
        },
{
    let mut i: usize = 0;
    while i < s.len()
        invariant
            i <= s@.len(),
            s@ == old(s)@,
            forall|j: int| 0 <= j < i ==> s@[j].0@ != k@,
        decreases s@.len() - i,
    {
        if bytes32_equal(&s[i].0, &k) {
            proof {
                lemma_assoc32_get_index(s@, k@, i as int);
            }
            let ghost vg = v;
            s[i] = (k, v);
            proof {
                assert(s@ == old(s)@.update(i as int, (k, vg)));
                lemma_assoc32_update_effect(old(s)@, i as int, k, vg);
            }
            return ;
        }
        i += 1;
    }
    proof {
        lemma_assoc32_get_none(s@, k@);
        lemma_assoc32_absent_no_index(s@, k@);
    }
    let ghost pre = s@;
    s.push((k, v));
    proof {
        assert forall|q: Seq<u8>| q != k@ implies spec_assoc32_get(s@, q) == spec_assoc32_get(
            pre,
            q,
        ) by {
            lemma_assoc32_get_push(pre, k, v, q);
        }
        lemma_assoc32_get_push(pre, k, v, k@);
        if spec_assoc32_unique(pre) {
            assert forall|a: int, b: int| 0 <= a < b < s@.len() implies s@[a].0@ != s@[b].0@ by {
                if b < s@.len() - 1 {
                    assert(s@[a] == pre[a]);
                    assert(s@[b] == pre[b]);
                } else {
                    assert(s@[a] == pre[a]);
                    assert(s@[b] == (k, v));
                }
            }
        }
    }
}

/// Overwriting the entry at the key's index rebinds that key and no
/// other.
pub proof fn lemma_assoc32_update_effect<V>(s: Seq<([u8; 32], V)>, i: int, k: [u8; 32], v: V)
    requires
        0 <= i < s.len(),
        s[i].0@ == k@,
        forall|j: int| 0 <= j < i ==> s[j].0@ != k@,
    ensures
        spec_assoc32_get(s.update(i, (k, v)), k@) == Some(v),
        forall|q: Seq<u8>| q != k@ ==> spec_assoc32_get(s.update(i, (k, v)), q)
            == spec_assoc32_get(s, q),
        spec_assoc32_unique(s) ==> spec_assoc32_unique(s.update(i, (k, v))),
    decreases i,
{
    let t = s.update(i, (k, v));
    if i == 0 {
        assert(t[0] == (k, v));
        assert(t.drop_first() =~= s.drop_first());
    } else {
        assert(t[0] == s[0]);
        assert(s[0].0@ != k@);
        assert(t.drop_first() =~= s.drop_first().update(i - 1, (k, v)));
        assert(s.drop_first()[i - 1] == s[i]);
        assert forall|j: int| 0 <= j < i - 1 implies s.drop_first()[j].0@ != k@ by {
            assert(s.drop_first()[j] == s[j + 1]);
        }
        lemma_assoc32_update_effect(s.drop_first(), i - 1, k, v);
        assert forall|q: Seq<u8>| q != k@ implies spec_assoc32_get(t, q) == spec_assoc32_get(
            s,
            q,
        ) by {
            if s[0].0@ == q {
                assert(spec_assoc32_get(t, q) == Some(t[0].1));
                assert(spec_assoc32_get(s, q) == Some(s[0].1));
            } else {
                assert(spec_assoc32_get(t, q) == spec_assoc32_get(t.drop_first(), q));
                assert(spec_assoc32_get(s, q) == spec_assoc32_get(s.drop_first(), q));
                assert(spec_assoc32_get(s.drop_first().update(i - 1, (k, v)), q)
                    == spec_assoc32_get(s.drop_first(), q));
            }
        }
    }
    if spec_assoc32_unique(s) {
        assert forall|a: int, b: int| 0 <= a < b < t.len() implies t[a].0@ != t[b].0@ by {
            if a != i && b != i {
                assert(t[a] == s[a]);
                assert(t[b] == s[b]);
            } else if a == i {
                assert(t[b] == s[b]);
            } else {
                assert(t[a] == s[a]);
            }
        }
    }
}

/// An absent key matches no entry.
pub proof fn lemma_assoc32_absent_no_index<V>(s: Seq<([u8; 32], V)>, k: Seq<u8>)
    requires
        spec_assoc32_get(s, k) is None,
    ensures
        forall|j: int| 0 <= j < s.len() ==> s[j].0@ != k,
    decreases s.len(),
{
    if s.len() > 0 {
        lemma_assoc32_absent_no_index(s.drop_first(), k);
        assert forall|j: int| 0 <= j < s.len() implies s[j].0@ != k by {
            if j > 0 {
                assert(s.drop_first()[j - 1] == s[j]);
            }
        }
    }
}

/// Removes the entry under a key, returning its value; every other
/// key's lookup is untouched.
pub fn assoc32_remove<V>(s: &mut Vec<([u8; 32], V)>, k: &[u8; 32]) -> (r: Option<V>)
    requires
        spec_assoc32_unique(old(s)@),
    ensures
        spec_assoc32_unique(final(s)@),
        spec_assoc32_get(final(s)@, k@) is None,
        forall|q: Seq<u8>| q != k@ ==> spec_assoc32_get(final(s)@, q) == spec_assoc32_get(
            old(s)@,
            q,
        ),
        match r {
            Some(v) => spec_assoc32_get(old(s)@, k@) == Some(v) && final(s)@.len() == old(
                s,
            )@.len() - 1,
            None => spec_assoc32_get(old(s)@, k@) is None && final(s)@ == old(s)@,
        },
{
    let mut i: usize = 0;
    while i < s.len()
        invariant
            i <= s@.len(),
            s@ == old(s)@,
            spec_assoc32_unique(s@),
            forall|j: int| 0 <= j < i ==> s@[j].0@ != k@,
        decreases s@.len() - i,
    {
        if bytes32_equal(&s[i].0, k) {
            proof {
                lemma_assoc32_get_index(s@, k@, i as int);
            }
            let v = s.remove(i);
            proof {
                lemma_assoc32_remove_effect(old(s)@, i as int, k@);
            }
            return Some(v.1);
        }
        i += 1;
    }
    proof {
        lemma_assoc32_get_none(s@, k@);
    }
    None
}

/// Removing the (unique) entry at the key's index deletes that key and
/// no other.
pub proof fn lemma_assoc32_remove_effect<V>(s: Seq<([u8; 32], V)>, i: int, k: Seq<u8>)
    requires
        spec_assoc32_unique(s),
        0 <= i < s.len(),
        s[i].0@ == k,
    ensures
        spec_assoc32_unique(s.remove(i)),
        spec_assoc32_get(s.remove(i), k) is None,
        forall|q: Seq<u8>| q != k ==> spec_assoc32_get(s.remove(i), q) == spec_assoc32_get(s, q),
{
    let t = s.remove(i);
    assert forall|a: int, b: int| 0 <= a < b < t.len() implies t[a].0@ != t[b].0@ by {
        let a2: int = if a < i { a } else { a + 1 };
        let b2: int = if b < i { b } else { b + 1 };
        assert(t[a] == s[a2]);
        assert(t[b] == s[b2]);
    }
    assert forall|j: int| 0 <= j < t.len() implies t[j].0@ != k by {
        let j2: int = if j < i { j } else { j + 1 };
        assert(t[j] == s[j2]);
        assert(j2 != i);
    }
    lemma_assoc32_get_none(t, k);
    assert forall|q: Seq<u8>| q != k implies spec_assoc32_get(t, q) == spec_assoc32_get(s, q) by {
        lemma_assoc32_get_agree(s, t, i, q);
    }
}

/// Helper: lookups of other keys agree between a list and the list
/// with one entry of a different key removed.
proof fn lemma_assoc32_get_agree<V>(s: Seq<([u8; 32], V)>, t: Seq<([u8; 32], V)>, i: int, q: Seq<u8>)
    requires
        0 <= i < s.len(),
        t == s.remove(i),
        s[i].0@ != q,
    ensures
        spec_assoc32_get(t, q) == spec_assoc32_get(s, q),
    decreases s.len(),
{
    if i == 0 {
        assert(t =~= s.drop_first());
    } else {
        assert(s.len() > 1);
        assert(t[0] == s[0]);
        if s[0].0@ == q {
        } else {
            assert(t.drop_first() =~= s.drop_first().remove(i - 1));
            assert(s.drop_first()[i - 1] == s[i]);
            lemma_assoc32_get_agree(s.drop_first(), t.drop_first(), i - 1, q);
        }
    }
}

/// The wallet's whole persisted state.
pub struct WalletDb {
    /// The current round consensus, absent only before the first epoch.
    pub round_consensus: Option<RoundConsensus>,
    /// The block hashes the federation has accepted as canonical.
    pub block_hashes: Vec<[u8; 32]>,
    /// Spendable deposits, keyed by outpoint.
    pub utxos: Vec<(BitcoinOutPoint, SpendableUTXO)>,
    /// Queued peg-outs, keyed by the txid of their unsigned transaction.
    pub unsigned_transactions: Vec<([u8; 32], UnsignedTransaction)>,
    /// Finalized peg-outs awaiting confirmation, keyed by txid.
    pub pending_transactions: Vec<([u8; 32], PendingTransaction)>,
    /// Our own signature items, published each epoch until their
    /// transaction finalizes; keyed by txid.
    pub peg_out_signature_items: Vec<([u8; 32], Vec<[u8; 64]>)>,
    /// The bitcoin txid each accepted peg-out request ended up in.
    pub peg_out_bitcoin_tx: Vec<(OutPoint, WalletOutputOutcome)>,
}

/// Looks a key up in the UTXO table.
pub open spec fn spec_utxo_get(
    s: Seq<(BitcoinOutPoint, SpendableUTXO)>,
    txid: Seq<u8>,
    vout: u32,
) -> Option<SpendableUTXO>
    decreases s.len(),
{
    if s.len() == 0 {
        None
    } else if s[0].0.txid@ == txid && s[0].0.vout == vout {
        Some(s[0].1)
    } else {
        spec_utxo_get(s.drop_first(), txid, vout)
    }
}

pub open spec fn spec_utxo_contains(
    s: Seq<(BitcoinOutPoint, SpendableUTXO)>,
    txid: Seq<u8>,
    vout: u32,
) -> bool {
    spec_utxo_get(s, txid, vout) is Some
}

/// Whether the UTXO table's outpoints are pairwise distinct.
pub open spec fn spec_utxos_unique(s: Seq<(BitcoinOutPoint, SpendableUTXO)>) -> bool {
    forall|i: int, j: int|
        0 <= i < j < s.len() ==> !(s[i].0.txid@ == s[j].0.txid@ && s[i].0.vout == s[j].0.vout)
}

/// Whether the wallet state is well formed: every table's keys are
/// unique.
pub open spec fn spec_db_wf(db: WalletDb) -> bool {
    &&& spec_utxos_unique(db.utxos@)
    &&& spec_assoc32_unique(db.unsigned_transactions@)
    &&& spec_assoc32_unique(db.pending_transactions@)
    &&& spec_assoc32_unique(db.peg_out_signature_items@)
}

impl WalletDb {
    /// An empty state, as a fresh federation starts with.
    pub fn new() -> (r: WalletDb)
        ensures
            r.round_consensus is None,
            r.block_hashes@.len() == 0,
            r.utxos@.len() == 0,
            r.unsigned_transactions@.len() == 0,
            r.pending_transactions@.len() == 0,
            r.peg_out_signature_items@.len() == 0,
            r.peg_out_bitcoin_tx@.len() == 0,
            spec_db_wf(r),
    {
        WalletDb {
            round_consensus: None,
            block_hashes: Vec::new(),
            utxos: Vec::new(),
            unsigned_transactions: Vec::new(),
            pending_transactions: Vec::new(),
            peg_out_signature_items: Vec::new(),
            peg_out_bitcoin_tx: Vec::new(),
        }
    }
}

/// Whether a block hash is in the accepted set.
pub open spec fn spec_block_known(hashes: Seq<[u8; 32]>, hash: Seq<u8>) -> bool {
    exists|i: int| 0 <= i < hashes.len() && hashes[i]@ == hash
}

/// Whether the accepted-block set holds a hash.
pub fn block_hashes_contain(hashes: &Vec<[u8; 32]>, hash: &[u8; 32]) -> (r: bool)
    ensures
        r == spec_block_known(hashes@, hash@),
{
    let mut i: usize = 0;
    while i < hashes.len()
        invariant
            i <= hashes@.len(),
            forall|j: int| 0 <= j < i ==> hashes@[j]@ != hash@,
        decreases hashes@.len() - i,
    {
        if bytes32_equal(&hashes[i], hash) {
            assert(hashes@[i as int]@ == hash@);
            return true;
        }
        i += 1;
    }
    false
}

/// Records a block hash as accepted (idempotently).
pub fn block_hashes_insert(hashes: &mut Vec<[u8; 32]>, hash: [u8; 32])
    ensures
        spec_block_known(final(hashes)@, hash@),
        final(hashes)@ == if spec_block_known(old(hashes)@, hash@) {
            old(hashes)@
        } else {
            old(hashes)@.push(hash)
        },
{
    if !block_hashes_contain(hashes, &hash) {
        hashes.push(hash);
        assert(hashes@[hashes@.len() - 1]@ == hash@);
    }
}

/// Finds a spendable UTXO by outpoint.
pub fn utxo_get(s: &Vec<(BitcoinOutPoint, SpendableUTXO)>, op: &BitcoinOutPoint) -> (r: Option<
    SpendableUTXO,
>)
    ensures
        r == spec_utxo_get(s@, op.txid@, op.vout),
{
    let mut i: usize = 0;
    while i < s.len()
        invariant
            i <= s@.len(),
            forall|j: int|
                0 <= j < i ==> !(s@[j].0.txid@ == op.txid@ && s@[j].0.vout == op.vout),
        decreases s@.len() - i,
    {
        if s[i].0.same_as(op) {
            proof {
                lemma_utxo_get_index(s@, op.txid@, op.vout, i as int);
            }
            return Some(s[i].1);
        }
        i += 1;
    }
    proof {
        lemma_utxo_get_none(s@, op.txid@, op.vout);
    }
    None
}

pub proof fn lemma_utxo_get_index(
    s: Seq<(BitcoinOutPoint, SpendableUTXO)>,
    txid: Seq<u8>,
    vout: u32,
    i: int,
)
    requires
        0 <= i < s.len(),
        s[i].0.txid@ == txid && s[i].0.vout == vout,
        forall|j: int| 0 <= j < i ==> !(s[j].0.txid@ == txid && s[j].0.vout == vout),
    ensures
        spec_utxo_get(s, txid, vout) == Some(s[i].1),
    decreases i,
{
    if i == 0 {
    } else {
        assert(s.drop_first()[i - 1] == s[i]);
        assert forall|j: int|
            0 <= j < i - 1 implies !(s.drop_first()[j].0.txid@ == txid && s.drop_first()[j].0.vout
            == vout) by {
            assert(s.drop_first()[j] == s[j + 1]);
        }
        lemma_utxo_get_index(s.drop_first(), txid, vout, i - 1);
    }
}

pub proof fn lemma_utxo_get_none(
    s: Seq<(BitcoinOutPoint, SpendableUTXO)>,
    txid: Seq<u8>,
    vout: u32,
)
    requires
        forall|j: int| 0 <= j < s.len() ==> !(s[j].0.txid@ == txid && s[j].0.vout == vout),
    ensures
        spec_utxo_get(s, txid, vout) is None,
    decreases s.len(),
{
    if s.len() > 0 {
        assert forall|j: int|
            0 <= j < s.len() - 1 implies !(s.drop_first()[j].0.txid@ == txid
            && s.drop_first()[j].0.vout == vout) by {
            assert(s.drop_first()[j] == s[j + 1]);
        }
        lemma_utxo_get_none(s.drop_first(), txid, vout);
    }
}

/// Appending a fresh UTXO leaves every other outpoint's lookup alone
/// and makes the new outpoint found.
pub proof fn lemma_utxo_get_push(
    s: Seq<(BitcoinOutPoint, SpendableUTXO)>,
    op: BitcoinOutPoint,
    v: SpendableUTXO,
    qt: Seq<u8>,
    qv: u32,
)
    ensures
        spec_utxo_get(s, qt, qv) is Some ==> spec_utxo_get(s.push((op, v)), qt, qv)
            == spec_utxo_get(s, qt, qv),
        spec_utxo_get(s, qt, qv) is None && qt == op.txid@ && qv == op.vout ==> spec_utxo_get(
            s.push((op, v)),
            qt,
            qv,
        ) == Some(v),
        spec_utxo_get(s, qt, qv) is None && !(qt == op.txid@ && qv == op.vout) ==> spec_utxo_get(
            s.push((op, v)),
            qt,
            qv,
        ) is None,
    decreases s.len(),
{
    if s.len() == 0 {
        assert(s.push((op, v))[0] == (op, v));
        assert(s.push((op, v)).drop_first() =~= Seq::<(BitcoinOutPoint, SpendableUTXO)>::empty());
    } else {
        assert(s.push((op, v))[0] == s[0]);
        assert(s.push((op, v)).drop_first() =~= s.drop_first().push((op, v)));
        lemma_utxo_get_push(s.drop_first(), op, v, qt, qv);
    }
}

/// Inserts a UTXO under an outpoint that must not be present yet.
pub fn utxo_insert_new(
    s: &mut Vec<(BitcoinOutPoint, SpendableUTXO)>,
    op: BitcoinOutPoint,
    v: SpendableUTXO,
)
    requires
        !spec_utxo_contains(old(s)@, op.txid@, op.vout),
    ensures
        final(s)@ == old(s)@.push((op, v)),
        spec_utxos_unique(old(s)@) ==> spec_utxos_unique(final(s)@),
{
    proof {
        lemma_utxo_absent_no_index(old(s)@, op.txid@, op.vout);
    }
    s.push((op, v));
    proof {
        if spec_utxos_unique(old(s)@) {
            assert forall|i: int, j: int|
                0 <= i < j < s@.len() implies !(s@[i].0.txid@ == s@[j].0.txid@ && s@[i].0.vout
                == s@[j].0.vout) by {
                if j < s@.len() - 1 {
                    assert(s@[i] == old(s)@[i]);
                    assert(s@[j] == old(s)@[j]);
                } else {
                    assert(s@[i] == old(s)@[i]);
                    assert(s@[j] == (op, v));
                }
            }
        }
    }
}

pub proof fn lemma_utxo_absent_no_index(
    s: Seq<(BitcoinOutPoint, SpendableUTXO)>,
    txid: Seq<u8>,
    vout: u32,
)
    requires
        spec_utxo_get(s, txid, vout) is None,
    ensures
        forall|j: int| 0 <= j < s.len() ==> !(s[j].0.txid@ == txid && s[j].0.vout == vout),
    decreases s.len(),
{
    if s.len() > 0 {
        lemma_utxo_absent_no_index(s.drop_first(), txid, vout);
        assert forall|j: int|
            0 <= j < s.len() implies !(s[j].0.txid@ == txid && s[j].0.vout == vout) by {
            if j > 0 {
                assert(s.drop_first()[j - 1] == s[j]);
            }
        }
    }
}

/// Inserts a UTXO, replacing any entry already stored at the outpoint.
pub fn utxo_upsert(
    s: &mut Vec<(BitcoinOutPoint, SpendableUTXO)>,
    op: BitcoinOutPoint,
    v: SpendableUTXO,
)
    ensures
        spec_utxo_get(final(s)@, op.txid@, op.vout) == Some(v),
        forall|qt: Seq<u8>, qv: u32|
            !(qt == op.txid@ && qv == op.vout) ==> spec_utxo_get(final(s)@, qt, qv)
                == spec_utxo_get(old(s)@, qt, qv),
        spec_utxos_unique(old(s)@) ==> spec_utxos_unique(final(s)@),
        final(s)@.len() == if spec_utxo_contains(old(s)@, op.txid@, op.vout) {
            old(s)@.len()
        } else {
            old(s)@.len() + 1
        },
{
    let mut i: usize = 0;
    while i < s.len()
        invariant
            i <= s@.len(),
            s@ == old(s)@,
            forall|j: int|
                0 <= j < i ==> !(s@[j].0.txid@ == op.txid@ && s@[j].0.vout == op.vout),
        decreases s@.len() - i,
    {
        if s[i].0.same_as(&op) {
            proof {
                lemma_utxo_get_index(s@, op.txid@, op.vout, i as int);
            }
            s[i] = (op, v);
            proof {
                lemma_utxo_update_effect(old(s)@, i as int, op, v);
            }
            return ;
        }
        i += 1;
    }
    proof {
        lemma_utxo_get_none(s@, op.txid@, op.vout);
    }
    utxo_insert_new(s, op, v);
    proof {
        assert forall|qt: Seq<u8>, qv: u32|
            !(qt == op.txid@ && qv == op.vout) implies spec_utxo_get(s@, qt, qv) == spec_utxo_get(
            old(s)@,
            qt,
            qv,
        ) by {
            lemma_utxo_get_push(old(s)@, op, v, qt, qv);
        }
        lemma_utxo_get_push(old(s)@, op, v, op.txid@, op.vout);
    }
}

/// Overwriting the entry at the outpoint's index rebinds that
/// outpoint and no other.
pub proof fn lemma_utxo_update_effect(
    s: Seq<(BitcoinOutPoint, SpendableUTXO)>,
    i: int,
    op: BitcoinOutPoint,
    v: SpendableUTXO,
)
    requires
        0 <= i < s.len(),
        s[i].0.txid@ == op.txid@ && s[i].0.vout == op.vout,
        forall|j: int| 0 <= j < i ==> !(s[j].0.txid@ == op.txid@ && s[j].0.vout == op.vout),
    ensures
        spec_utxo_get(s.update(i, (op, v)), op.txid@, op.vout) == Some(v),
        forall|qt: Seq<u8>, qv: u32|
            !(qt == op.txid@ && qv == op.vout) ==> spec_utxo_get(s.update(i, (op, v)), qt, qv)
                == spec_utxo_get(s, qt, qv),
        spec_utxos_unique(s) ==> spec_utxos_unique(s.update(i, (op, v))),
    decreases i,
{
    let t = s.update(i, (op, v));
    if i == 0 {
        assert(t[0] == (op, v));
        assert(t.drop_first() =~= s.drop_first());
    } else {
        assert(t[0] == s[0]);
        assert(!(s[0].0.txid@ == op.txid@ && s[0].0.vout == op.vout));
        assert(t.drop_first() =~= s.drop_first().update(i - 1, (op, v)));
        assert(s.drop_first()[i - 1] == s[i]);
        assert forall|j: int|
            0 <= j < i - 1 implies !(s.drop_first()[j].0.txid@ == op.txid@
            && s.drop_first()[j].0.vout == op.vout) by {
            assert(s.drop_first()[j] == s[j + 1]);
        }
        lemma_utxo_update_effect(s.drop_first(), i - 1, op, v);
        assert forall|qt: Seq<u8>, qv: u32|
            !(qt == op.txid@ && qv == op.vout) implies spec_utxo_get(t, qt, qv) == spec_utxo_get(
            s,
            qt,
            qv,
        ) by {
            if s[0].0.txid@ == qt && s[0].0.vout == qv {
                assert(spec_utxo_get(t, qt, qv) == Some(t[0].1));
                assert(spec_utxo_get(s, qt, qv) == Some(s[0].1));
            } else {
                assert(spec_utxo_get(t, qt, qv) == spec_utxo_get(t.drop_first(), qt, qv));
                assert(spec_utxo_get(s, qt, qv) == spec_utxo_get(s.drop_first(), qt, qv));
                assert(spec_utxo_get(s.drop_first().update(i - 1, (op, v)), qt, qv)
                    == spec_utxo_get(s.drop_first(), qt, qv));
            }
        }
    }
    if spec_utxos_unique(s) {
        assert forall|a: int, b: int|
            0 <= a < b < t.len() implies !(t[a].0.txid@ == t[b].0.txid@ && t[a].0.vout
            == t[b].0.vout) by {
            if a != i && b != i {
                assert(t[a] == s[a]);
                assert(t[b] == s[b]);
            } else if a == i {
                assert(t[b] == s[b]);
            } else {
                assert(t[a] == s[a]);
            }
        }
    }
}

/// Removes the UTXO at an outpoint, if present.
pub fn utxo_remove(s: &mut Vec<(BitcoinOutPoint, SpendableUTXO)>, op: &BitcoinOutPoint) -> (r:
    Option<SpendableUTXO>)
    requires
        spec_utxos_unique(old(s)@),
    ensures
        spec_utxos_unique(final(s)@),
        spec_utxo_get(final(s)@, op.txid@, op.vout) is None,
        forall|qt: Seq<u8>, qv: u32|
            !(qt == op.txid@ && qv == op.vout) ==> spec_utxo_get(final(s)@, qt, qv)
                == spec_utxo_get(old(s)@, qt, qv),
        match r {
            Some(v) => spec_utxo_get(old(s)@, op.txid@, op.vout) == Some(v) && final(s)@.len()
                == old(s)@.len() - 1,
            None => spec_utxo_get(old(s)@, op.txid@, op.vout) is None && final(s)@ == old(s)@,
        },
{
    let mut i: usize = 0;
    while i < s.len()
        invariant
            i <= s@.len(),
            s@ == old(s)@,
            spec_utxos_unique(s@),
            forall|j: int|
                0 <= j < i ==> !(s@[j].0.txid@ == op.txid@ && s@[j].0.vout == op.vout),
        decreases s@.len() - i,
    {
        if s[i].0.same_as(op) {
            proof {
                lemma_utxo_get_index(s@, op.txid@, op.vout, i as int);
            }
            let entry = s.remove(i);
            proof {
                lemma_utxo_remove_effect(old(s)@, i as int, op.txid@, op.vout);
            }
            return Some(entry.1);
        }
        i += 1;
    }
    proof {
        lemma_utxo_get_none(s@, op.txid@, op.vout);
    }
    None
}

pub proof fn lemma_utxo_remove_effect(
    s: Seq<(BitcoinOutPoint, SpendableUTXO)>,
    i: int,
    txid: Seq<u8>,
    vout: u32,
)
    requires
        spec_utxos_unique(s),
        0 <= i < s.len(),
        s[i].0.txid@ == txid && s[i].0.vout == vout,
    ensures
        spec_utxos_unique(s.remove(i)),
        spec_utxo_get(s.remove(i), txid, vout) is None,
        forall|qt: Seq<u8>, qv: u32|
            !(qt == txid && qv == vout) ==> spec_utxo_get(s.remove(i), qt, qv) == spec_utxo_get(
                s,
                qt,
                qv,
            ),
{
    let t = s.remove(i);
    assert forall|a: int, b: int|
        0 <= a < b < t.len() implies !(t[a].0.txid@ == t[b].0.txid@ && t[a].0.vout
        == t[b].0.vout) by {
        let a2: int = if a < i { a } else { a + 1 };
        let b2: int = if b < i { b } else { b + 1 };
        assert(t[a] == s[a2]);
        assert(t[b] == s[b2]);
    }
    assert forall|j: int| 0 <= j < t.len() implies !(t[j].0.txid@ == txid && t[j].0.vout == vout) by {
        let j2: int = if j < i { j } else { j + 1 };
        assert(t[j] == s[j2]);
        assert(j2 != i);
    }
    lemma_utxo_get_none(t, txid, vout);
    assert forall|qt: Seq<u8>, qv: u32|
        !(qt == txid && qv == vout) implies spec_utxo_get(t, qt, qv) == spec_utxo_get(s, qt, qv) by {
        lemma_utxo_get_remove_agree(s, t, i, qt, qv);
    }
}

proof fn lemma_utxo_get_remove_agree(
    s: Seq<(BitcoinOutPoint, SpendableUTXO)>,
    t: Seq<(BitcoinOutPoint, SpendableUTXO)>,
    i: int,
    qt: Seq<u8>,
    qv: u32,
)
    requires
        0 <= i < s.len(),
        t == s.remove(i),
        !(s[i].0.txid@ == qt && s[i].0.vout == qv),
    ensures
        spec_utxo_get(t, qt, qv) == spec_utxo_get(s, qt, qv),
    decreases s.len(),
{
    if i == 0 {
        assert(t =~= s.drop_first());
    } else {
        assert(t[0] == s[0]);
        if s[0].0.txid@ == qt && s[0].0.vout == qv {
        } else {
            assert(t.drop_first() =~= s.drop_first().remove(i - 1));
            assert(s.drop_first()[i - 1] == s[i]);
            lemma_utxo_get_remove_agree(s.drop_first(), t.drop_first(), i - 1, qt, qv);
        }
    }
}

/// Looks a federation outpoint up in the peg-out outcome table.
pub open spec fn spec_outcome_get(
    s: Seq<(OutPoint, WalletOutputOutcome)>,
    txid: Seq<u8>,
    out_idx: u64,
) -> Option<WalletOutputOutcome>
    decreases s.len(),
{
    if s.len() == 0 {
        None
    } else if s[0].0.txid@ == txid && s[0].0.out_idx == out_idx {
        Some(s[0].1)
    } else {
        spec_outcome_get(s.drop_first(), txid, out_idx)
    }
}

/// Finds the bitcoin txid recorded for a peg-out request.
pub fn outcome_get(s: &Vec<(OutPoint, WalletOutputOutcome)>, op: &OutPoint) -> (r: Option<
    WalletOutputOutcome,
>)
    ensures
        r == spec_outcome_get(s@, op.txid@, op.out_idx),
{
    let mut i: usize = 0;
    while i < s.len()
        invariant
            i <= s@.len(),
            forall|j: int|
                0 <= j < i ==> !(s@[j].0.txid@ == op.txid@ && s@[j].0.out_idx == op.out_idx),
        decreases s@.len() - i,
    {
        if bytes32_equal(&s[i].0.txid, &op.txid) && s[i].0.out_idx == op.out_idx {
            proof {
                lemma_outcome_get_index(s@, op.txid@, op.out_idx, i as int);
            }
            return Some(s[i].1);
        }
        i += 1;
    }
    proof {
        lemma_outcome_get_none(s@, op.txid@, op.out_idx);
    }
    None
}

pub proof fn lemma_outcome_get_index(
    s: Seq<(OutPoint, WalletOutputOutcome)>,
    txid: Seq<u8>,
    out_idx: u64,
    i: int,
)
    requires
        0 <= i < s.len(),
        s[i].0.txid@ == txid && s[i].0.out_idx == out_idx,
        forall|j: int| 0 <= j < i ==> !(s[j].0.txid@ == txid && s[j].0.out_idx == out_idx),
    ensures
        spec_outcome_get(s, txid, out_idx) == Some(s[i].1),
    decreases i,
{
    if i == 0 {
    } else {
        assert(s.drop_first()[i - 1] == s[i]);
        assert forall|j: int|
            0 <= j < i - 1 implies !(s.drop_first()[j].0.txid@ == txid
            && s.drop_first()[j].0.out_idx == out_idx) by {
            assert(s.drop_first()[j] == s[j + 1]);
        }
        lemma_outcome_get_index(s.drop_first(), txid, out_idx, i - 1);
    }
}

pub proof fn lemma_outcome_get_none(
    s: Seq<(OutPoint, WalletOutputOutcome)>,
    txid: Seq<u8>,
    out_idx: u64,
)
    requires
        forall|j: int| 0 <= j < s.len() ==> !(s[j].0.txid@ == txid && s[j].0.out_idx == out_idx),
    ensures
        spec_outcome_get(s, txid, out_idx) is None,
    decreases s.len(),
{
    if s.len() > 0 {
        assert forall|j: int|
            0 <= j < s.len() - 1 implies !(s.drop_first()[j].0.txid@ == txid
            && s.drop_first()[j].0.out_idx == out_idx) by {
            assert(s.drop_first()[j] == s[j + 1]);
        }
        lemma_outcome_get_none(s.drop_first(), txid, out_idx);
    }
}

/// Records the bitcoin txid of an accepted peg-out request.
pub fn outcome_insert(
    s: &mut Vec<(OutPoint, WalletOutputOutcome)>,
    op: OutPoint,
    outcome: WalletOutputOutcome,
)
    ensures
        final(s)@ == old(s)@.push((op, outcome)),
{
    s.push((op, outcome));
}

} // verus!
