//! The federation's peg-in descriptor: a `wsh(sortedmulti(k, ...))`
//! miniscript over the peers' compressed public keys, and its tweaked
//! per-user variants. Script compilation, satisfaction weight and the
//! dust limit are the `miniscript` and `bitcoin` crates' and are relied
//! upon through the wrappers below; tweaking each key is verified code.

use vstd::prelude::*;

use crate::keys::{spec_tweaked_public_key, tweak_public_key};
use bitcoin::secp256k1::PublicKey as SecpPublicKey;
use bitcoin::{PublicKey, Script};
use miniscript::Descriptor;

verus! {

/// The federation's joint descriptor: a threshold over the peers'
/// compressed public keys, compiled as `wsh(sortedmulti(k, keys))`.
#[derive(Clone, Debug, PartialEq, Eq)]
pub struct PegInDescriptor {
    pub threshold: usize,
    pub keys: Vec<[u8; 33]>,
}

/// The views of a list of serialized keys, as byte sequences.
pub open spec fn key_views(keys: Seq<[u8; 33]>) -> Seq<Seq<u8>> {
    keys.map_values(|k: [u8; 33]| k@)
}

// The script pubkey of the `wsh(sortedmulti(k, keys))` descriptor over
// the given serialized compressed keys, as compiled by miniscript's
// `Descriptor::new_wsh_sortedmulti` and `script_pubkey`; `None` where a
// key does not parse or the descriptor is refused.
pub uninterp spec fn wsh_sortedmulti_spk(k: usize, keys: Seq<Seq<u8>>) -> Option<Seq<u8>>;

// The witness script (BIP143 script code) of the same descriptor, as
// returned by miniscript's `Descriptor::script_code`.
pub uninterp spec fn wsh_sortedmulti_witness_script(k: usize, keys: Seq<Seq<u8>>) -> Option<
    Seq<u8>,
>;

// An upper bound on the satisfaction weight of the same descriptor, as
// returned by miniscript's `Descriptor::max_satisfaction_weight`.
pub uninterp spec fn wsh_sortedmulti_max_weight(k: usize, keys: Seq<Seq<u8>>) -> Option<usize>;

// The dust threshold of an output paying the given script, as returned
// by the bitcoin crate's `Script::dust_value`, in satoshi.
pub uninterp spec fn dust_value_of(script: Seq<u8>) -> u64;

/// The view of an optional byte vector as an optional byte sequence.
pub open spec fn opt_bytes_view(o: Option<Vec<u8>>) -> Option<Seq<u8>> {
    match o {
        Some(v) => Some(v@),
        None => None,
    }
}

/// The view of an optional usize as itself (for relating wrapper
/// results to their names).
pub open spec fn opt_usize_view(o: Option<usize>) -> Option<usize> {
    o
}

/// Relies on miniscript's `Descriptor::new_wsh_sortedmulti` and
/// `script_pubkey`; the body only parses the keys for it.
#[verifier::external_body]
pub(crate) fn compile_wsh_sortedmulti_spk(k: usize, keys: &Vec<[u8; 33]>) -> (r: Option<Vec<u8>>)
    ensures
        opt_bytes_view(r) == wsh_sortedmulti_spk(k, key_views(keys@)),
{
    let mut pks: Vec<PublicKey> = Vec::with_capacity(keys.len());
    for key in keys.iter() {
        match SecpPublicKey::from_slice(&key[..]) {
            Ok(pk) => pks.push(PublicKey { compressed: true, inner: pk }),
            Err(_) => return None,
        }
    }
    match Descriptor::new_wsh_sortedmulti(k, pks) {
        Ok(descriptor) => Some(descriptor.script_pubkey().to_bytes()),
        Err(_) => None,
    }
}

/// Relies on miniscript's `Descriptor::new_wsh_sortedmulti` and
/// `script_code`; the body only parses the keys for it.
#[verifier::external_body]
pub(crate) fn compile_wsh_sortedmulti_witness_script(k: usize, keys: &Vec<[u8; 33]>) -> (r: Option<
    Vec<u8>,
>)
    ensures
        opt_bytes_view(r) == wsh_sortedmulti_witness_script(k, key_views(keys@)),
{
    let mut pks: Vec<PublicKey> = Vec::with_capacity(keys.len());
    for key in keys.iter() {
        match SecpPublicKey::from_slice(&key[..]) {
            Ok(pk) => pks.push(PublicKey { compressed: true, inner: pk }),
            Err(_) => return None,
        }
    }
    match Descriptor::new_wsh_sortedmulti(k, pks) {
        Ok(descriptor) => match descriptor.script_code() {
            Ok(script) => Some(script.to_bytes()),
            Err(_) => None,
        },
        Err(_) => None,
    }
}

/// Relies on miniscript's `Descriptor::new_wsh_sortedmulti` and
/// `max_satisfaction_weight`; the body only parses the keys for it.
#[verifier::external_body]
pub(crate) fn compile_wsh_sortedmulti_max_weight(k: usize, keys: &Vec<[u8; 33]>) -> (r: Option<
    usize,
>)
    ensures
        opt_usize_view(r) == wsh_sortedmulti_max_weight(k, key_views(keys@)),
{
    let mut pks: Vec<PublicKey> = Vec::with_capacity(keys.len());
    for key in keys.iter() {
        match SecpPublicKey::from_slice(&key[..]) {
            Ok(pk) => pks.push(PublicKey { compressed: true, inner: pk }),
            Err(_) => return None,
        }
    }
    match Descriptor::new_wsh_sortedmulti(k, pks) {
        Ok(descriptor) => descriptor.max_satisfaction_weight().ok(),
        Err(_) => None,
    }
}

/// Relies on the bitcoin crate's `Script::dust_value`: the smallest
/// output value at which an output paying this script is not dust.
#[verifier::external_body]
pub(crate) fn script_dust_value(script: &Vec<u8>) -> (r: u64)
    ensures
        r == dust_value_of(script@),
{
    Script::from(script.clone()).dust_value().to_sat()
}

/// Whether every key of a descriptor can be tweaked with the given
/// 32-byte tweak.
pub open spec fn all_tweaks_ok(keys: Seq<Seq<u8>>, tweak: Seq<u8>) -> bool {
    forall|i: int| 0 <= i < keys.len() ==> spec_tweaked_public_key(keys[i], tweak) is Some
}

/// Every key of a descriptor, tweaked.
pub open spec fn map_tweaked(keys: Seq<Seq<u8>>, tweak: Seq<u8>) -> Seq<Seq<u8>> {
    keys.map_values(|k: Seq<u8>| spec_tweaked_public_key(k, tweak).unwrap())
}

/// The script pubkey of a descriptor whose every key was tweaked.
pub open spec fn spec_tweaked_script_pubkey(k: usize, keys: Seq<Seq<u8>>, tweak: Seq<u8>) -> Option<
    Seq<u8>,
> {
    if all_tweaks_ok(keys, tweak) {
        wsh_sortedmulti_spk(k, map_tweaked(keys, tweak))
    } else {
        None
    }
}

/// The witness script of a descriptor whose every key was tweaked.
pub open spec fn spec_tweaked_witness_script(
    k: usize,
    keys: Seq<Seq<u8>>,
    tweak: Seq<u8>,
) -> Option<Seq<u8>> {
    if all_tweaks_ok(keys, tweak) {
        wsh_sortedmulti_witness_script(k, map_tweaked(keys, tweak))
    } else {
        None
    }
}

/// Copies a list of serialized keys.
pub fn clone_keys(v: &Vec<[u8; 33]>) -> (r: Vec<[u8; 33]>)
    ensures
        r@ == v@,
{
    let mut out: Vec<[u8; 33]> = Vec::with_capacity(v.len());
    let mut i: usize = 0;
    while i < v.len()
        invariant
            i <= v@.len(),
            out@ == v@.take(i as int),
        decreases v@.len() - i,
    {
        out.push(v[i]);
        proof {
            assert(out@ =~= v@.take(i + 1));
        }
        i += 1;
    }
    proof {
        assert(v@.take(v@.len() as int) =~= v@);
    }
    out
}

impl PegInDescriptor {
    /// Every key of the descriptor, tweaked by the same 32-byte tweak.
    pub fn tweaked_keys(&self, tweak: &[u8; 32]) -> (r: Option<Vec<[u8; 33]>>)
        ensures
            r is Some <==> all_tweaks_ok(key_views(self.keys@), tweak@),
            r is Some ==> key_views(r.unwrap()@) =~= map_tweaked(key_views(self.keys@), tweak@),
    {
        let mut out: Vec<[u8; 33]> = Vec::with_capacity(self.keys.len());
        let mut i: usize = 0;
        while i < self.keys.len()
            invariant
                i <= self.keys@.len(),
                out@.len() == i,
                forall|j: int|
                    0 <= j < i ==> spec_tweaked_public_key(self.keys@[j]@, tweak@) is Some,
                forall|j: int|
                    0 <= j < i ==> out@[j]@ == spec_tweaked_public_key(
                        self.keys@[j]@,
                        tweak@,
                    ).unwrap(),
            decreases self.keys@.len() - i,
        {
            match tweak_public_key(&self.keys[i], tweak) {
                Some(tweaked) => out.push(tweaked),
                None => {
                    assert(spec_tweaked_public_key(key_views(self.keys@)[i as int], tweak@)
                        is None);
                    return None;
                },
            }
            i += 1;
        }
        proof {
            assert forall|j: int| 0 <= j < self.keys@.len() implies spec_tweaked_public_key(
                key_views(self.keys@)[j],
                tweak@,
            ) is Some by {
                assert(key_views(self.keys@)[j] == self.keys@[j]@);
            }
            assert(key_views(out@) =~= map_tweaked(key_views(self.keys@), tweak@));
        }
        Some(out)
    }

    /// The script pubkey a user's deposit must pay: the descriptor with
    /// every key tweaked, compiled.
    pub fn tweaked_script_pubkey(&self, tweak: &[u8; 32]) -> (r: Option<Vec<u8>>)
        ensures
            opt_bytes_view(r) == spec_tweaked_script_pubkey(
                self.threshold,
                key_views(self.keys@),
                tweak@,
            ),
    {
        match self.tweaked_keys(tweak) {
            Some(keys) => compile_wsh_sortedmulti_spk(self.threshold, &keys),
            None => None,
        }
    }

    /// The witness script that spends from the tweaked descriptor.
    pub fn tweaked_witness_script(&self, tweak: &[u8; 32]) -> (r: Option<Vec<u8>>)
        ensures
            opt_bytes_view(r) == spec_tweaked_witness_script(
                self.threshold,
                key_views(self.keys@),
                tweak@,
            ),
    {
        match self.tweaked_keys(tweak) {
            Some(keys) => compile_wsh_sortedmulti_witness_script(self.threshold, &keys),
            None => None,
        }
    }

    /// An upper bound on the weight a satisfied input of this
    /// descriptor adds to a transaction.
    pub fn max_satisfaction_weight(&self) -> (r: Option<usize>)
        ensures
            r == wsh_sortedmulti_max_weight(self.threshold, key_views(self.keys@)),
    {
        compile_wsh_sortedmulti_max_weight(self.threshold, &self.keys)
    }
}

} // verus!
