//! The example client module: the states a submitted transaction
//! walks through on the client side, and the balance bookkeeping its
//! transitions perform.

use vstd::prelude::*;

use crate::types::Amount;

verus! {

/// Generates the example client module.
#[derive(Clone, Copy, Debug, PartialEq, Eq, Structural)]
pub struct DummyClientGen;

/// The example client module needs no shared context.
#[derive(Clone, Copy, Debug, PartialEq, Eq, Structural)]
pub struct DummyClientContext;

/// Where a submitted transaction stands.
#[derive(Clone, Copy, Debug, PartialEq, Eq, Structural)]
pub enum DummyClientState {
    Input,
    Output,
    Done,
}

/// Tracks one submitted transaction until completion.
#[derive(Clone, Copy, Debug, PartialEq, Eq)]
pub struct DummyClientStateMachine {
    pub operation_id: [u8; 32],
    pub txid: [u8; 32],
    pub idx: u64,
    pub amount: Amount,
    pub state: DummyClientState,
}

impl DummyClientStateMachine {
    /// The operation this state machine tracks.
    pub fn operation_id(&self) -> (r: [u8; 32])
        ensures
            r == self.operation_id,
    {
        self.operation_id
    }

    /// The machine, finished.
    pub fn done(self) -> (r: DummyClientStateMachine)
        ensures
            r.state == DummyClientState::Done,
            r.operation_id == self.operation_id,
            r.txid == self.txid,
            r.idx == self.idx,
            r.amount == self.amount,
    {
        DummyClientStateMachine {
            operation_id: self.operation_id,
            txid: self.txid,
            idx: self.idx,
            amount: self.amount,
            state: DummyClientState::Done,
        }
    }

    /// Credits the tracked amount back to the client's balance
    /// (saturating) and finishes the machine.
    pub fn add_amount(self, funds: &mut Amount) -> (r: DummyClientStateMachine)
        ensures
            final(funds).msats == crate::dummy_server::spec_saturating_add_msats(
                old(funds).msats,
                self.amount.msats,
            ),
            r.state == DummyClientState::Done,
            r.operation_id == self.operation_id,
            r.txid == self.txid,
            r.idx == self.idx,
            r.amount == self.amount,
    {
        let updated = match funds.msats.checked_add(self.amount.msats) {
            Some(total) => total,
            None => u64::MAX,
        };
        *funds = Amount { msats: updated };
        self.done()
    }
}

} // verus!
