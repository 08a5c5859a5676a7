//! Plain value types shared by the whole federation: amounts, fee rates,
//! peer identifiers, networks and outpoints.

use vstd::prelude::*;

verus! {

/// An amount of money, denominated in milli-satoshi, as used by the
/// federation's internal accounting.
#[derive(Clone, Copy, Debug, PartialEq, Eq, Hash)]
pub struct Amount {
    pub msats: u64,
}

impl Amount {
    pub open spec fn spec_from_sats(sats: u64) -> Amount {
        if sats * 1000 <= u64::MAX {
            Amount { msats: (sats * 1000) as u64 }
        } else {
            Amount { msats: u64::MAX }
        }
    }

    /// Converts whole satoshis into the internal milli-satoshi unit,
    /// saturating at the largest representable amount.
    pub fn from_sats(sats: u64) -> (r: Amount)
        ensures
            r == Amount::spec_from_sats(sats),
    {
        match sats.checked_mul(1000) {
            Some(msats) => Amount { msats },
            None => Amount { msats: u64::MAX },
        }
    }
}

/// A fee rate in satoshis per kilo-weight-unit.
#[derive(Clone, Copy, Debug, PartialEq, Eq, Hash)]
pub struct Feerate {
    pub sats_per_kvb: u64,
}

impl Feerate {
    pub open spec fn spec_fee_sats(self, weight: u64) -> u64 {
        if self.sats_per_kvb * weight <= u64::MAX {
            ((self.sats_per_kvb * weight) / 1000) as u64
        } else {
            u64::MAX / 1000
        }
    }

    /// The fee owed by a transaction of the given weight, rounded down,
    /// saturating on (unrealistically large) overflowing products.
    pub fn calculate_fee(self, weight: u64) -> (r: u64)
        ensures
            r == self.spec_fee_sats(weight),
    {
        match self.sats_per_kvb.checked_mul(weight) {
            Some(product) => product / 1000,
            None => u64::MAX / 1000,
        }
    }
}

/// Identifier of a federation member.
#[derive(Clone, Copy, Debug, PartialEq, Eq, Structural, Hash)]
pub struct PeerId {
    pub id: u16,
}

/// The bitcoin network a federation operates on.
#[derive(Clone, Copy, Debug, PartialEq, Eq, Structural, Hash)]
pub enum Network {
    Bitcoin,
    Testnet,
    Signet,
    Regtest,
}

/// The standard output kinds a destination address can have.
#[derive(Clone, Copy, Debug, PartialEq, Eq, Structural, Hash)]
pub enum AddressType {
    P2pkh,
    P2sh,
    P2wpkh,
    P2wsh,
    P2tr,
}

/// A destination bitcoin address, reduced to the data the wallet reads:
/// the network it was encoded for, its output kind (if a standard one)
/// and the script it pays to.
#[derive(Clone, Debug, PartialEq, Eq, Hash)]
pub struct Address {
    pub network: Network,
    pub address_type: Option<AddressType>,
    pub script_pubkey: Vec<u8>,
}

pub ghost struct AddressView {
    pub network: Network,
    pub address_type: Option<AddressType>,
    pub script_pubkey: Seq<u8>,
}

impl View for Address {
    type V = AddressView;

    open spec fn view(&self) -> AddressView {
        AddressView {
            network: self.network,
            address_type: self.address_type,
            script_pubkey: self.script_pubkey@,
        }
    }
}

/// An outpoint of a federation transaction, locating one of its outputs.
#[derive(Clone, Copy, Debug, PartialEq, Eq, Hash)]
pub struct OutPoint {
    pub txid: [u8; 32],
    pub out_idx: u64,
}

/// An outpoint of a bitcoin transaction, locating one of its outputs.
#[derive(Clone, Copy, Debug, PartialEq, Eq, Hash)]
pub struct BitcoinOutPoint {
    pub txid: [u8; 32],
    pub vout: u32,
}

impl BitcoinOutPoint {
    /// Field-wise equality, usable from verified code.
    pub fn same_as(&self, other: &BitcoinOutPoint) -> (r: bool)
        ensures
            r == (self.txid@ == other.txid@ && self.vout == other.vout),
    {
        bytes32_equal(&self.txid, &other.txid) && self.vout == other.vout
    }
}

/// The amount and fee one federation transaction item carries.
#[derive(Clone, Copy, Debug, PartialEq, Eq, Hash)]
pub struct TransactionItemAmount {
    pub amount: Amount,
    pub fee: Amount,
}

/// What a validated input is worth and who may spend it.
#[derive(Clone, Debug, PartialEq, Eq)]
pub struct InputMeta {
    pub amount: TransactionItemAmount,
    pub puk_keys: Vec<[u8; 32]>,
}

/// Copies a 32-byte value into a vector.
pub fn bytes32_to_vec(a: &[u8; 32]) -> (r: Vec<u8>)
    ensures
        r@ == a@,
{
    let mut out: Vec<u8> = Vec::with_capacity(32);
    let mut i: usize = 0;
    while i < 32
        invariant
            i <= 32,
            out@.len() == i,
            forall|j: int| 0 <= j < i ==> out@[j] == a@[j],
        decreases 32 - i,
    {
        out.push(a[i]);
        i += 1;
    }
    assert(out@ =~= a@);
    out
}

/// Compares two byte vectors, usable from verified code.
pub fn bytes_vec_equal(a: &Vec<u8>, b: &Vec<u8>) -> (r: bool)
    ensures
        r == (a@ == b@),
{
    if a.len() != b.len() {
        return false;
    }
    let mut i: usize = 0;
    while i < a.len()
        invariant
            a@.len() == b@.len(),
            i <= a@.len(),
            forall|j: int| 0 <= j < i ==> a@[j] == b@[j],
        decreases a@.len() - i,
    {
        if a[i] != b[i] {
            assert(a@[i as int] != b@[i as int]);
            return false;
        }
        i += 1;
    }
    assert(a@ =~= b@);
    true
}

/// Compares two 32-byte values, usable from verified code.
pub fn bytes32_equal(a: &[u8; 32], b: &[u8; 32]) -> (r: bool)
    ensures
        r == (a@ == b@),
{
    let mut i: usize = 0;
    while i < 32
        invariant
            i <= 32,
            forall|j: int| 0 <= j < i ==> a@[j] == b@[j],
        decreases 32 - i,
    {
        if a[i] != b[i] {
            assert(a@[i as int] != b@[i as int]);
            return false;
        }
        i += 1;
    }
    assert(a@ =~= b@);
    true
}

/// Compares two 33-byte values, usable from verified code.
pub fn bytes33_equal(a: &[u8; 33], b: &[u8; 33]) -> (r: bool)
    ensures
        r == (a@ == b@),
{
    let mut i: usize = 0;
    while i < 33
        invariant
            i <= 33,
            forall|j: int| 0 <= j < i ==> a@[j] == b@[j],
        decreases 33 - i,
    {
        if a[i] != b[i] {
            assert(a@[i as int] != b@[i as int]);
            return false;
        }
        i += 1;
    }
    assert(a@ =~= b@);
    true
}

} // verus!
