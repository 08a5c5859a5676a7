//! Federation configuration: frozen at genesis, read-only afterwards.

use vstd::prelude::*;

use crate::descriptor::PegInDescriptor;
use crate::types::{Amount, Feerate, Network, PeerId};

verus! {

/// The absolute fees the federation charges on top of bitcoin fees.
#[derive(Clone, Copy, Debug, PartialEq, Eq)]
pub struct FeeConsensus {
    pub peg_in_abs: Amount,
    pub peg_out_abs: Amount,
}

impl Default for FeeConsensus {
    /// The federation charges no absolute fees unless configured.
    fn default() -> (r: FeeConsensus)
        ensures
            r.peg_in_abs.msats == 0,
            r.peg_out_abs.msats == 0,
    {
        FeeConsensus { peg_in_abs: Amount { msats: 0 }, peg_out_abs: Amount { msats: 0 } }
    }
}

/// The consensus-critical part of the configuration, identical at all
/// peers.
#[derive(Clone, Debug, PartialEq, Eq)]
pub struct WalletConfigConsensus {
    pub network: Network,
    /// Every peer's compressed public key, sorted by peer id.
    pub peer_peg_in_keys: Vec<(PeerId, [u8; 33])>,
    pub peg_in_descriptor: PegInDescriptor,
    /// How many blocks behind the tip the federation follows.
    pub finality_delay: u32,
    /// The fee rate proposed when the bitcoin node has no estimate.
    pub default_fee: Feerate,
    pub fee_consensus: FeeConsensus,
}

/// The secret part of the configuration: this peer's own identity and
/// key.
#[derive(Clone, Debug, PartialEq, Eq)]
pub struct WalletConfigPrivate {
    pub our_id: PeerId,
    pub peg_in_key: [u8; 32],
}

/// A peer's whole wallet configuration.
#[derive(Clone, Debug, PartialEq, Eq)]
pub struct WalletConfig {
    pub consensus: WalletConfigConsensus,
    pub private: WalletConfigPrivate,
}

/// The signing threshold of a federation of `n` members: `2n/3 + 1`,
/// the smallest count a Byzantine third cannot block.
pub open spec fn spec_peers_threshold(n: usize) -> int {
    2 * (n as int) / 3 + 1
}

/// The signing threshold of a federation of `n` members.
pub fn peers_threshold(n: usize) -> (r: usize)
    requires
        n < usize::MAX / 2,
    ensures
        r == spec_peers_threshold(n),
{
    2 * n / 3 + 1
}

/// Looks a peer's public key up in a sorted peer-key list.
pub open spec fn spec_peer_key(keys: Seq<(PeerId, [u8; 33])>, peer: PeerId) -> Option<[u8; 33]>
    decreases keys.len(),
{
    if keys.len() == 0 {
        None
    } else if keys[0].0 == peer {
        Some(keys[0].1)
    } else {
        spec_peer_key(keys.drop_first(), peer)
    }
}

impl WalletConfigConsensus {
    /// The public key the federation knows for a peer.
    pub fn peer_pubkey(&self, peer: PeerId) -> (r: Option<[u8; 33]>)
        ensures
            r == spec_peer_key(self.peer_peg_in_keys@, peer),
    {
        let mut i: usize = 0;
        proof {
            assert(self.peer_peg_in_keys@.skip(0) =~= self.peer_peg_in_keys@);
        }
        while i < self.peer_peg_in_keys.len()
            invariant
                i <= self.peer_peg_in_keys@.len(),
                forall|j: int| 0 <= j < i ==> self.peer_peg_in_keys@[j].0 != peer,
                spec_peer_key(self.peer_peg_in_keys@, peer) == spec_peer_key(
                    self.peer_peg_in_keys@.skip(i as int),
                    peer,
                ),
            decreases self.peer_peg_in_keys@.len() - i,
        {
            proof {
                assert(self.peer_peg_in_keys@.skip(i as int)[0] == self.peer_peg_in_keys@[
                    i as int]);
            }
            if self.peer_peg_in_keys[i].0.id == peer.id {
                return Some(self.peer_peg_in_keys[i].1);
            }
            proof {
                assert(self.peer_peg_in_keys@.skip(i as int).drop_first()
                    =~= self.peer_peg_in_keys@.skip(i + 1));
            }
            i += 1;
        }
        proof {
            assert(self.peer_peg_in_keys@.skip(self.peer_peg_in_keys@.len() as int).len() == 0);
        }
        None
    }
}

impl WalletConfig {
    /// Assembles a configuration from the distributed key material:
    /// the descriptor is `wsh(sortedmulti(threshold, keys))` over the
    /// peers' keys in peer order.
    pub fn new(
        peer_peg_in_keys: Vec<(PeerId, [u8; 33])>,
        our_id: PeerId,
        sk: [u8; 32],
        threshold: usize,
        network: Network,
        finality_delay: u32,
    ) -> (r: WalletConfig)
        ensures
            r.consensus.peer_peg_in_keys@ == peer_peg_in_keys@,
            r.consensus.peg_in_descriptor.threshold == threshold,
            r.consensus.peg_in_descriptor.keys@.len() == peer_peg_in_keys@.len(),
            forall|i: int|
                0 <= i < peer_peg_in_keys@.len() ==> r.consensus.peg_in_descriptor.keys@[i]
                    == peer_peg_in_keys@[i].1,
            r.consensus.network == network,
            r.consensus.finality_delay == finality_delay,
            r.consensus.default_fee.sats_per_kvb == 1000,
            r.private.our_id == our_id,
            r.private.peg_in_key == sk,
    {
        let mut keys: Vec<[u8; 33]> = Vec::with_capacity(peer_peg_in_keys.len());
        let mut i: usize = 0;
        while i < peer_peg_in_keys.len()
            invariant
                i <= peer_peg_in_keys@.len(),
                keys@.len() == i,
                forall|j: int| 0 <= j < i ==> keys@[j] == peer_peg_in_keys@[j].1,
            decreases peer_peg_in_keys@.len() - i,
        {
            keys.push(peer_peg_in_keys[i].1);
            i += 1;
        }
        WalletConfig {
            consensus: WalletConfigConsensus {
                network,
                peer_peg_in_keys,
                peg_in_descriptor: PegInDescriptor { threshold, keys },
                finality_delay,
                default_fee: Feerate { sats_per_kvb: 1000 },
                fee_consensus: FeeConsensus::default(),
            },
            private: WalletConfigPrivate { our_id, peg_in_key: sk },
        }
    }
}

/// Generates wallet configurations at federation genesis; key
/// generation itself lives with the distributed-key-generation layer.
#[derive(Clone, Copy, Debug, PartialEq, Eq, Structural)]
pub struct WalletConfigGenerator;

/// The parameters a federation is generated from.
#[derive(Clone, Copy, Debug, PartialEq, Eq, Structural)]
pub struct WalletConfigGenParams {
    pub network: Network,
    pub finality_delay: u32,
}

} // verus!
