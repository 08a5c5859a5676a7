//! The example module's tables: per-account funds (two schema
//! versions) and the processed outputs, with the migration between the
//! schema versions.

use vstd::prelude::*;

use crate::types::{Amount, OutPoint};

verus! {

/// Namespaces the example module's tables.
#[derive(Clone, Copy, Debug, PartialEq, Eq, Structural)]
pub enum DbKeyPrefix {
    DummyFunds,
    DummyOutputs,
}

/// Key of the first funds schema: the account name.
#[derive(Clone, Debug, PartialEq, Eq, Hash)]
pub struct DummyFundsKeyV0(pub String);

/// Prefix to find all first-schema funds.
#[derive(Clone, Copy, Debug, PartialEq, Eq, Structural)]
pub struct DummyFundsKeyPrefixV0;

/// Key of the current funds schema: the account name.
#[derive(Clone, Debug, PartialEq, Eq, Hash)]
pub struct DummyFundsKeyV1(pub String);

/// Prefix to find all funds.
#[derive(Clone, Copy, Debug, PartialEq, Eq, Structural)]
pub struct DummyFundsKeyV1Prefix;

/// Key of a processed output.
#[derive(Clone, Copy, Debug, PartialEq, Eq)]
pub struct DummyOutputKeyV1(pub OutPoint);

/// Prefix to find all processed outputs.
#[derive(Clone, Copy, Debug, PartialEq, Eq, Structural)]
pub struct DummyOutputKeyV1Prefix;

/// The example module's whole state: both funds tables and the
/// processed outputs.
pub struct DummyDb {
    pub funds_v0: Vec<(String, Amount)>,
    pub funds: Vec<(String, Amount)>,
    pub outputs: Vec<OutPoint>,
}

/// Looks an account's funds up; first match wins.
pub open spec fn spec_funds_get(s: Seq<(String, Amount)>, account: Seq<char>) -> Option<Amount>
    decreases s.len(),
{
    if s.len() == 0 {
        None
    } else if s[0].0@ == account {
        Some(s[0].1)
    } else {
        spec_funds_get(s.drop_first(), account)
    }
}

/// Moves every first-schema entry over to the current schema and
/// clears the old table.
pub fn migrate_to_v1(db: &mut DummyDb)
    ensures
        final(db).funds_v0@.len() == 0,
        final(db).funds@ == old(db).funds@ + old(db).funds_v0@,
        final(db).outputs@ == old(db).outputs@,
{
    let mut moved: Vec<(String, Amount)> = Vec::new();
    core::mem::swap(&mut moved, &mut db.funds_v0);
    let ghost moved0 = moved@;
    let ghost base = db.funds@;
    let mut i: usize = 0;
    proof {
        assert(db.funds@ =~= base + moved0.take(0));
    }
    while i < moved.len()
        invariant
            moved@ == moved0,
            i <= moved0.len(),
            db.funds_v0@.len() == 0,
            db.outputs@ == old(db).outputs@,
            db.funds@ == base + moved0.take(i as int),
        decreases moved0.len() - i,
    {
        let entry = &moved[i];
        db.funds.push((entry.0.clone(), entry.1));
        proof {
            assert(db.funds@ =~= base + moved0.take(i + 1));
        }
        i += 1;
    }
    proof {
        assert(moved0.take(moved0.len() as int) =~= moved0);
    }
}

} // verus!
