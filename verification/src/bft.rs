//! The byte-level shapes the ordered-broadcast layer exchanges; the
//! agreement protocol itself is an external collaborator and only its
//! interface appears here.

use vstd::prelude::*;

use crate::types::PeerId;

verus! {

/// A raw message exchanged between peers.
#[derive(Clone, Debug, PartialEq, Eq)]
pub struct BftMessage(pub Vec<u8>);

/// A raw item a module hands to the ordered broadcast.
#[derive(Clone, Debug, PartialEq, Eq)]
pub struct BftItem(pub Vec<u8>);

/// An item as it comes back out of the ordered broadcast: attributed
/// to its proposer and numbered in delivery order.
#[derive(Clone, Debug, PartialEq, Eq)]
pub struct BftConsensusItem {
    pub item: BftItem,
    pub peer: PeerId,
    pub number: u64,
}

/// Where an outgoing message should go.
#[derive(Clone, Copy, Debug, PartialEq, Eq, Structural)]
pub enum BftRecipient {
    AllPeers,
    Peer(PeerId),
}

} // verus!
