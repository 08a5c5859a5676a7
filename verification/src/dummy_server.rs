//! The example server module: a plain per-account ledger, with the
//! same validate/apply shape the wallet has. It keeps the surrounding
//! framework honest and shows the module interface at its smallest.

use vstd::prelude::*;

use crate::dummy_db::{spec_funds_get, DummyDb};
use crate::types::{Amount, OutPoint, PeerId, TransactionItemAmount};

verus! {

/// The account that stands for created assets on the balance sheet:
/// users' funds are the federation's liability, this account's are
/// its cover.
pub const FED_ACCOUNT: &'static str = "Money printer go brr";

/// The example module's whole configuration: the fee it charges.
#[derive(Clone, Copy, Debug, PartialEq, Eq)]
pub struct DummyConfig {
    pub tx_fee: Amount,
}

/// An input spending an account's funds.
#[derive(Clone, Debug, PartialEq, Eq)]
pub struct DummyInput {
    pub account: String,
    pub amount: Amount,
}

/// An output crediting an account.
#[derive(Clone, Debug, PartialEq, Eq)]
pub struct DummyOutput {
    pub account: String,
    pub amount: Amount,
}

/// The example module has no consensus items of its own.
#[derive(Clone, Copy, Debug, PartialEq, Eq, Structural)]
pub struct DummyConsensusItem;

/// The example module rejects only overspending.
#[derive(Clone, Copy, Debug, PartialEq, Eq, Structural)]
pub enum DummyError {
    NotEnoughFunds,
}

/// Generates the example module.
#[derive(Clone, Copy, Debug, PartialEq, Eq, Structural)]
pub struct DummyServerGen;

/// The example module precomputes nothing across inputs.
#[derive(Clone, Copy, Debug, PartialEq, Eq, Structural)]
pub struct DummyVerificationCache;

/// The example module.
#[derive(Clone, Debug)]
pub struct Dummy {
    pub cfg: DummyConfig,
}

/// The funds an account holds, zero when the account is unknown.
pub open spec fn spec_funds_or_zero(s: Seq<(String, Amount)>, account: Seq<char>) -> u64 {
    match spec_funds_get(s, account) {
        Some(amount) => amount.msats,
        None => 0u64,
    }
}

/// Looks an account's funds up, zero when the account is unknown.
pub fn get_funds(db: &DummyDb, account: &String) -> (r: Amount)
    ensures
        r.msats == spec_funds_or_zero(db.funds@, account@),
{
    let mut i: usize = 0;
    while i < db.funds.len()
        invariant
            i <= db.funds@.len(),
            forall|j: int| 0 <= j < i ==> (#[trigger] db.funds@[j]).0@ != account@,
        decreases db.funds@.len() - i,
    {
        if db.funds[i].0 == *account {
            proof {
                lemma_funds_get_index(db.funds@, account@, i as int);
            }
            return db.funds[i].1;
        }
        i += 1;
    }
    proof {
        lemma_funds_get_none(db.funds@, account@);
    }
    Amount { msats: 0 }
}

pub proof fn lemma_funds_get_index(s: Seq<(String, Amount)>, account: Seq<char>, i: int)
    requires
        0 <= i < s.len(),
        s[i].0@ == account,
        forall|j: int| 0 <= j < i ==> (#[trigger] s[j]).0@ != account,
    ensures
        spec_funds_get(s, account) == Some(s[i].1),
    decreases i,
{
    if i > 0 {
        assert(s.drop_first()[i - 1] == s[i]);
        assert forall|j: int| 0 <= j < i - 1 implies (#[trigger] s.drop_first()[j]).0@
            != account by {
            assert(s.drop_first()[j] == s[j + 1]);
        }
        lemma_funds_get_index(s.drop_first(), account, i - 1);
    }
}

pub proof fn lemma_funds_get_none(s: Seq<(String, Amount)>, account: Seq<char>)
    requires
        forall|j: int| 0 <= j < s.len() ==> (#[trigger] s[j]).0@ != account,
    ensures
        spec_funds_get(s, account) is None,
    decreases s.len(),
{
    if s.len() > 0 {
        assert forall|j: int| 0 <= j < s.len() - 1 implies (#[trigger] s.drop_first()[j]).0@
            != account by {
            assert(s.drop_first()[j] == s[j + 1]);
        }
        lemma_funds_get_none(s.drop_first(), account);
    }
}

/// Writes an account's funds, replacing any earlier entry.
pub fn set_funds(db: &mut DummyDb, account: &String, amount: Amount)
    ensures
        spec_funds_get(final(db).funds@, account@) == Some(amount),
        forall|other: Seq<char>|
            other != account@ ==> #[trigger] spec_funds_get(final(db).funds@, other)
                == spec_funds_get(old(db).funds@, other),
        final(db).funds_v0@ == old(db).funds_v0@,
        final(db).outputs@ == old(db).outputs@,
{
    let mut i: usize = 0;
    while i < db.funds.len()
        invariant
            i <= db.funds@.len(),
            db.funds@ == old(db).funds@,
            db.funds_v0@ == old(db).funds_v0@,
            db.outputs@ == old(db).outputs@,
            forall|j: int| 0 <= j < i ==> (#[trigger] db.funds@[j]).0@ != account@,
        decreases db.funds@.len() - i,
    {
        if db.funds[i].0 == *account {
            proof {
                lemma_funds_get_index(db.funds@, account@, i as int);
            }
            db.funds[i] = (account.clone(), amount);
            proof {
                lemma_funds_set_update(old(db).funds@, account@, i as int, db.funds@[i as int]);
            }
            return ;
        }
        i += 1;
    }
    proof {
        lemma_funds_get_none(db.funds@, account@);
    }
    let ghost pre = db.funds@;
    db.funds.push((account.clone(), amount));
    proof {
        lemma_funds_set_push(pre, account@, db.funds@[pre.len() as int]);
    }
}

proof fn lemma_funds_set_update(
    s: Seq<(String, Amount)>,
    account: Seq<char>,
    i: int,
    entry: (String, Amount),
)
    requires
        0 <= i < s.len(),
        s[i].0@ == account,
        entry.0@ == account,
        forall|j: int| 0 <= j < i ==> (#[trigger] s[j]).0@ != account,
    ensures
        spec_funds_get(s.update(i, entry), account) == Some(entry.1),
        forall|other: Seq<char>|
            other != account ==> #[trigger] spec_funds_get(s.update(i, entry), other)
                == spec_funds_get(s, other),
    decreases i,
{
    let t = s.update(i, entry);
    if i == 0 {
        assert(t[0] == entry);
        assert(t.drop_first() =~= s.drop_first());
    } else {
        assert(t[0] == s[0]);
        assert(t.drop_first() =~= s.drop_first().update(i - 1, entry));
        assert(s.drop_first()[i - 1] == s[i]);
        assert forall|j: int| 0 <= j < i - 1 implies (#[trigger] s.drop_first()[j]).0@
            != account by {
            assert(s.drop_first()[j] == s[j + 1]);
        }
        lemma_funds_set_update(s.drop_first(), account, i - 1, entry);
        assert forall|other: Seq<char>|
            other != account implies #[trigger] spec_funds_get(t, other) == spec_funds_get(
            s,
            other,
        ) by {
            if s[0].0@ == other {
            } else {
                assert(spec_funds_get(t, other) == spec_funds_get(t.drop_first(), other));
                assert(spec_funds_get(s, other) == spec_funds_get(s.drop_first(), other));
            }
        }
    }
}

proof fn lemma_funds_set_push(s: Seq<(String, Amount)>, account: Seq<char>, entry: (String, Amount))
    requires
        entry.0@ == account,
        forall|j: int| 0 <= j < s.len() ==> (#[trigger] s[j]).0@ != account,
    ensures
        spec_funds_get(s.push(entry), account) == Some(entry.1),
        forall|other: Seq<char>|
            other != account ==> #[trigger] spec_funds_get(s.push(entry), other)
                == spec_funds_get(s, other),
    decreases s.len(),
{
    if s.len() == 0 {
        assert(s.push(entry)[0] == entry);
        assert(s.push(entry).drop_first() =~= Seq::<(String, Amount)>::empty());
        assert forall|other: Seq<char>|
            other != account implies #[trigger] spec_funds_get(s.push(entry), other)
            == spec_funds_get(s, other) by {
            assert(spec_funds_get(s.push(entry), other) == spec_funds_get(
                s.push(entry).drop_first(),
                other,
            ));
        }
    } else {
        assert(s.push(entry)[0] == s[0]);
        assert(s.push(entry).drop_first() =~= s.drop_first().push(entry));
        assert forall|j: int| 0 <= j < s.len() - 1 implies (#[trigger] s.drop_first()[j]).0@
            != account by {
            assert(s.drop_first()[j] == s[j + 1]);
        }
        lemma_funds_set_push(s.drop_first(), account, entry);
        assert forall|other: Seq<char>|
            other != account implies #[trigger] spec_funds_get(s.push(entry), other)
            == spec_funds_get(s, other) by {
            if s[0].0@ == other {
            } else {
                assert(spec_funds_get(s.push(entry), other) == spec_funds_get(
                    s.push(entry).drop_first(),
                    other,
                ));
            }
        }
    }
}

impl Dummy {
    /// A module instance over its configuration.
    pub fn new(cfg: DummyConfig) -> (r: Dummy)
        ensures
            r.cfg == cfg,
    {
        Dummy { cfg }
    }

    /// The example module never proposes consensus items.
    pub fn consensus_proposal(&self) -> (r: Vec<(PeerId, DummyConsensusItem)>)
        ensures
            r@.len() == 0,
    {
        Vec::new()
    }

    /// The example module never drops peers.
    pub fn end_consensus_epoch(&self) -> (r: Vec<PeerId>)
        ensures
            r@.len() == 0,
    {
        Vec::new()
    }

    /// The example module precomputes nothing across inputs.
    pub fn build_verification_cache(&self) -> (r: DummyVerificationCache)
        ensures
            r == DummyVerificationCache,
    {
        DummyVerificationCache
    }

    /// An input is valid exactly when the account covers it; it is
    /// worth its amount at the configured fee.
    pub fn validate_input(&self, db: &DummyDb, input: &DummyInput) -> (r: Result<
        TransactionItemAmount,
        DummyError,
    >)
        ensures
            match r {
                Ok(meta) => input.amount.msats <= spec_funds_or_zero(db.funds@, input.account@)
                    && meta.amount == input.amount && meta.fee == self.cfg.tx_fee,
                Err(DummyError::NotEnoughFunds) => input.amount.msats > spec_funds_or_zero(
                    db.funds@,
                    input.account@,
                ),
            },
    {
        let funds = get_funds(db, &input.account);
        if input.amount.msats > funds.msats {
            return Err(DummyError::NotEnoughFunds);
        }
        Ok(TransactionItemAmount { amount: input.amount, fee: self.cfg.tx_fee })
    }

    /// Spends a validated input: the account's funds shrink by its
    /// amount.
    pub fn apply_input(&self, db: &mut DummyDb, input: &DummyInput) -> (r: Result<
        TransactionItemAmount,
        DummyError,
    >)
        ensures
            final(db).funds_v0@ == old(db).funds_v0@,
            final(db).outputs@ == old(db).outputs@,
            match r {
                Ok(meta) => {
                    &&& input.amount.msats <= spec_funds_or_zero(old(db).funds@, input.account@)
                    &&& spec_funds_or_zero(final(db).funds@, input.account@)
                        == spec_funds_or_zero(old(db).funds@, input.account@)
                        - input.amount.msats
                    &&& (forall|other: Seq<char>|
                        other != input.account@ ==> #[trigger] crate::dummy_db::spec_funds_get(
                            final(db).funds@,
                            other,
                        ) == crate::dummy_db::spec_funds_get(old(db).funds@, other))
                    &&& meta.amount == input.amount
                    &&& meta.fee == self.cfg.tx_fee
                },
                Err(DummyError::NotEnoughFunds) => input.amount.msats > spec_funds_or_zero(
                    old(db).funds@,
                    input.account@,
                ) && final(db).funds@ == old(db).funds@,
            },
    {
        let meta = match self.validate_input(db, input) {
            Ok(meta) => meta,
            Err(e) => {
                return Err(e);
            },
        };
        let funds = get_funds(db, &input.account);
        let updated = Amount { msats: funds.msats - input.amount.msats };
        set_funds(db, &input.account, updated);
        Ok(meta)
    }

    /// An output is always acceptable; it is worth its amount at the
    /// configured fee.
    pub fn validate_output(&self, output: &DummyOutput) -> (r: TransactionItemAmount)
        ensures
            r.amount == output.amount,
            r.fee == self.cfg.tx_fee,
    {
        TransactionItemAmount { amount: output.amount, fee: self.cfg.tx_fee }
    }

    /// Credits an output: the account's funds grow by its amount
    /// (saturating), and the outpoint is recorded as processed.
    pub fn apply_output(&self, db: &mut DummyDb, output: &DummyOutput, out_point: OutPoint) -> (r:
        TransactionItemAmount)
        ensures
            final(db).funds_v0@ == old(db).funds_v0@,
            final(db).outputs@ == old(db).outputs@.push(out_point),
            spec_funds_or_zero(final(db).funds@, output.account@) == spec_saturating_add_msats(
                spec_funds_or_zero(old(db).funds@, output.account@),
                output.amount.msats,
            ),
            forall|other: Seq<char>|
                other != output.account@ ==> #[trigger] crate::dummy_db::spec_funds_get(
                    final(db).funds@,
                    other,
                ) == crate::dummy_db::spec_funds_get(old(db).funds@, other),
            r.amount == output.amount,
            r.fee == self.cfg.tx_fee,
    {
        let funds = get_funds(db, &output.account);
        let updated = match funds.msats.checked_add(output.amount.msats) {
            Some(total) => Amount { msats: total },
            None => Amount { msats: u64::MAX },
        };
        set_funds(db, &output.account, updated);
        db.outputs.push(out_point);
        TransactionItemAmount { amount: output.amount, fee: self.cfg.tx_fee }
    }

    /// Whether an output was processed.
    pub fn output_status(&self, db: &DummyDb, out_point: OutPoint) -> (r: bool)
        ensures
            r == exists|i: int|
                0 <= i < db.outputs@.len() && (#[trigger] db.outputs@[i]).txid@
                    == out_point.txid@ && db.outputs@[i].out_idx == out_point.out_idx,
    {
        let mut i: usize = 0;
        while i < db.outputs.len()
            invariant
                i <= db.outputs@.len(),
                forall|j: int|
                    0 <= j < i ==> !((#[trigger] db.outputs@[j]).txid@ == out_point.txid@
                        && db.outputs@[j].out_idx == out_point.out_idx),
            decreases db.outputs@.len() - i,
        {
            if crate::types::bytes32_equal(&db.outputs[i].txid, &out_point.txid)
                && db.outputs[i].out_idx == out_point.out_idx {
                return true;
            }
            i += 1;
        }
        false
    }
}

/// The milli-satoshi the issuing account holds, summed.
pub open spec fn spec_issuer_msats(s: Seq<(String, Amount)>) -> int
    decreases s.len(),
{
    if s.len() == 0 {
        0
    } else {
        spec_issuer_msats(s.drop_last()) + if s.last().0@ == FED_ACCOUNT@ {
            s.last().1.msats as int
        } else {
            0
        }
    }
}

/// The milli-satoshi every user account holds, summed.
pub open spec fn spec_user_msats(s: Seq<(String, Amount)>) -> int
    decreases s.len(),
{
    if s.len() == 0 {
        0
    } else {
        spec_user_msats(s.drop_last()) + if s.last().0@ == FED_ACCOUNT@ {
            0
        } else {
            s.last().1.msats as int
        }
    }
}

/// The two balances the auditor reads off the example module: what
/// the issuing account covers and what users are owed.
#[derive(Clone, Copy, Debug, PartialEq, Eq)]
pub struct DummyAuditSummary {
    pub issuer_msats: u128,
    pub user_msats: u128,
}

impl Dummy {
    /// Sums the ledger for the auditor: the issuing account's cover
    /// and the users' claims.
    pub fn audit(&self, db: &DummyDb) -> (r: DummyAuditSummary)
        ensures
            r.issuer_msats == spec_issuer_msats(db.funds@),
            r.user_msats == spec_user_msats(db.funds@),
    {
        let fed: String = FED_ACCOUNT.to_string();
        let mut issuer_msats: u128 = 0;
        let mut user_msats: u128 = 0;
        let mut i: usize = 0;
        while i < db.funds.len()
            invariant
                fed@ == FED_ACCOUNT@,
                i <= db.funds@.len(),
                issuer_msats == spec_issuer_msats(db.funds@.take(i as int)),
                user_msats == spec_user_msats(db.funds@.take(i as int)),
                issuer_msats <= i * (u64::MAX as int),
                user_msats <= i * (u64::MAX as int),
            decreases db.funds@.len() - i,
        {
            proof {
                assert((i + 1) * (u64::MAX as int) == i * (u64::MAX as int) + u64::MAX)
                    by (nonlinear_arith);
                assert(db.funds@.take(i + 1).drop_last() =~= db.funds@.take(i as int));
            }
            if db.funds[i].0 == fed {
                issuer_msats = issuer_msats + (db.funds[i].1.msats as u128);
            } else {
                user_msats = user_msats + (db.funds[i].1.msats as u128);
            }
            i += 1;
        }
        proof {
            assert(db.funds@.take(db.funds@.len() as int) =~= db.funds@);
        }
        DummyAuditSummary { issuer_msats, user_msats }
    }
}

/// `a + b` in milli-satoshi, saturating at the largest `u64`.
pub open spec fn spec_saturating_add_msats(a: u64, b: u64) -> u64 {
    if a + b <= u64::MAX {
        (a + b) as u64
    } else {
        u64::MAX
    }
}

} // verus!
