//! Key material and the consensus-critical tweak derivation.
//!
//! A 32-byte tweak is mixed into a compressed public key `P` as
//! `P + G * HMAC_SHA256(P.serialize(), tweak)`, and into the matching
//! secret key as the same scalar addition. The elliptic-curve and HMAC
//! primitives come from the `secp256k1` and `bitcoin_hashes` crates and
//! are relied upon through the wrappers below; the composition of the
//! two steps is verified code.

use vstd::prelude::*;

use bitcoin::hashes::Hash as HashTrait;
use bitcoin::hashes::{sha256, HashEngine, Hmac, HmacEngine};
use bitcoin::secp256k1::ecdsa::Signature;
use bitcoin::secp256k1::{Message, PublicKey, Scalar, Secp256k1, SecretKey};

verus! {

// The HMAC-SHA256 of a message under a key, as computed by
// bitcoin_hashes' `Hmac<sha256::Hash>`.
pub uninterp spec fn hmac_sha256(key: Seq<u8>, msg: Seq<u8>) -> Seq<u8>;

// Whether 32 bytes are a valid secp256k1 secret key, that is whether
// secp256k1's `SecretKey::from_slice` accepts them.
pub uninterp spec fn secret_key_in_range(sk: Seq<u8>) -> bool;

// The serialized compressed public key matching a secret key, as
// computed by secp256k1's `PublicKey::from_secret_key`.
pub uninterp spec fn public_key_of(sk: Seq<u8>) -> Seq<u8>;

// The serialized compressed public key `P + G * t` for a public key `P`
// and a big-endian scalar `t`, as computed by secp256k1's
// `PublicKey::add_exp_tweak`; `None` where the point or scalar is
// invalid or the sum is the point at infinity.
pub uninterp spec fn point_add_scalar(pk: Seq<u8>, t: Seq<u8>) -> Option<Seq<u8>>;

// The big-endian secret key `k + t mod n` for a secret key `k` and a
// scalar `t`, as computed by secp256k1's `SecretKey::add_tweak`; `None`
// where an input is invalid or the sum is zero.
pub uninterp spec fn scalar_add(sk: Seq<u8>, t: Seq<u8>) -> Option<Seq<u8>>;

// The deterministic (RFC 6979) ECDSA signature of a 32-byte message
// under a secret key, in 64-byte compact form, as computed by
// secp256k1's `sign_ecdsa`.
pub uninterp spec fn ecdsa_signature(sk: Seq<u8>, msg: Seq<u8>) -> Seq<u8>;

// Whether a 64-byte compact ECDSA signature is valid for a 32-byte
// message under a serialized compressed public key, as decided by
// secp256k1's `verify_ecdsa` (false also where a key or signature does
// not parse).
pub uninterp spec fn ecdsa_sig_valid(pk: Seq<u8>, msg: Seq<u8>, sig: Seq<u8>) -> bool;

/// The view of an optional 33-byte array as an optional byte sequence.
pub open spec fn opt33_view(o: Option<[u8; 33]>) -> Option<Seq<u8>> {
    match o {
        Some(a) => Some(a@),
        None => None,
    }
}

/// The view of an optional 32-byte array as an optional byte sequence.
pub open spec fn opt32_view(o: Option<[u8; 32]>) -> Option<Seq<u8>> {
    match o {
        Some(a) => Some(a@),
        None => None,
    }
}

/// Relies on bitcoin_hashes' `HmacEngine<sha256::Hash>`: keyed HMAC-SHA256
/// over the message, a pure function of key and message.
#[verifier::external_body]
pub(crate) fn hmac_sha256_keyed(key: &[u8; 33], msg: &[u8; 32]) -> (r: [u8; 32])
    ensures
        r@ == hmac_sha256(key@, msg@),
{
    let mut engine = HmacEngine::<sha256::Hash>::new(&key[..]);
    engine.input(&msg[..]);
    Hmac::<sha256::Hash>::from_engine(engine).into_inner()
}

/// Relies on secp256k1's `SecretKey::from_slice` and
/// `PublicKey::from_secret_key`: derives the compressed public key of a
/// secret key, succeeding exactly for in-range secret keys.
#[verifier::external_body]
pub(crate) fn public_key_from_secret(sk: &[u8; 32]) -> (r: Option<[u8; 33]>)
    ensures
        r is Some <==> secret_key_in_range(sk@),
        r is Some ==> opt33_view(r) == Some(public_key_of(sk@)),
{
    let secp = Secp256k1::new();
    match SecretKey::from_slice(&sk[..]) {
        Ok(key) => Some(PublicKey::from_secret_key(&secp, &key).serialize()),
        Err(_) => None,
    }
}

/// Relies on secp256k1's `PublicKey::add_exp_tweak` (with
/// `Scalar::from_be_bytes` converting the scalar): adds `t * G` to a
/// compressed public key.
#[verifier::external_body]
pub(crate) fn point_add_scalar_bytes(pk: &[u8; 33], t: &[u8; 32]) -> (r: Option<[u8; 33]>)
    ensures
        opt33_view(r) == point_add_scalar(pk@, t@),
{
    let secp = Secp256k1::new();
    let key = match PublicKey::from_slice(&pk[..]) {
        Ok(key) => key,
        Err(_) => return None,
    };
    let scalar = match Scalar::from_be_bytes(*t) {
        Ok(scalar) => scalar,
        Err(_) => return None,
    };
    match key.add_exp_tweak(&secp, &scalar) {
        Ok(tweaked) => Some(tweaked.serialize()),
        Err(_) => None,
    }
}

/// Relies on secp256k1's `SecretKey::add_tweak` (with
/// `Scalar::from_be_bytes` converting the scalar): adds a scalar to a
/// secret key modulo the curve order.
#[verifier::external_body]
pub(crate) fn scalar_add_bytes(sk: &[u8; 32], t: &[u8; 32]) -> (r: Option<[u8; 32]>)
    ensures
        opt32_view(r) == scalar_add(sk@, t@),
{
    let key = match SecretKey::from_slice(&sk[..]) {
        Ok(key) => key,
        Err(_) => return None,
    };
    let scalar = match Scalar::from_be_bytes(*t) {
        Ok(scalar) => scalar,
        Err(_) => return None,
    };
    match key.add_tweak(&scalar) {
        Ok(tweaked) => Some(tweaked.secret_bytes()),
        Err(_) => None,
    }
}

/// Relies on secp256k1's `sign_ecdsa`: the deterministic RFC 6979 ECDSA
/// signature of a 32-byte message, in compact form.
#[verifier::external_body]
pub(crate) fn ecdsa_sign(sk: &[u8; 32], msg: &[u8; 32]) -> (r: Option<[u8; 64]>)
    ensures
        r is Some <==> secret_key_in_range(sk@),
        r is Some ==> r.unwrap()@ == ecdsa_signature(sk@, msg@),
{
    let secp = Secp256k1::new();
    let key = match SecretKey::from_slice(&sk[..]) {
        Ok(key) => key,
        Err(_) => return None,
    };
    let message = Message::from_slice(&msg[..]).expect("32 bytes");
    Some(secp.sign_ecdsa(&message, &key).serialize_compact())
}

/// Relies on secp256k1's `verify_ecdsa`: whether a compact signature is
/// valid for a 32-byte message under a compressed public key.
#[verifier::external_body]
pub(crate) fn ecdsa_verify(pk: &[u8; 33], msg: &[u8; 32], sig: &[u8; 64]) -> (r: bool)
    ensures
        r == ecdsa_sig_valid(pk@, msg@, sig@),
{
    let secp = Secp256k1::new();
    let key = match PublicKey::from_slice(&pk[..]) {
        Ok(key) => key,
        Err(_) => return false,
    };
    let signature = match Signature::from_compact(&sig[..]) {
        Ok(signature) => signature,
        Err(_) => return false,
    };
    let message = Message::from_slice(&msg[..]).expect("32 bytes");
    secp.verify_ecdsa(&message, &signature, &key).is_ok()
}

/// The scalar a tweak adds to a key: `HMAC_SHA256(pk.serialize(), tweak)`.
pub open spec fn spec_tweak_scalar(pk: Seq<u8>, tweak: Seq<u8>) -> Seq<u8> {
    hmac_sha256(pk, tweak)
}

/// The tweaked counterpart of a public key:
/// `P + G * HMAC_SHA256(P.serialize(), tweak)`.
pub open spec fn spec_tweaked_public_key(pk: Seq<u8>, tweak: Seq<u8>) -> Option<Seq<u8>> {
    point_add_scalar(pk, spec_tweak_scalar(pk, tweak))
}

/// The tweaked counterpart of a secret key whose public key is `pk`:
/// `k + HMAC_SHA256(pk, tweak) mod n`.
pub open spec fn spec_tweaked_secret_key(sk: Seq<u8>, pk: Seq<u8>, tweak: Seq<u8>) -> Option<
    Seq<u8>,
> {
    scalar_add(sk, spec_tweak_scalar(pk, tweak))
}

/// Applies a 32-byte tweak to a compressed public key, exactly as the
/// consensus rules prescribe.
pub fn tweak_public_key(pk: &[u8; 33], tweak: &[u8; 32]) -> (r: Option<[u8; 33]>)
    ensures
        opt33_view(r) == spec_tweaked_public_key(pk@, tweak@),
{
    let scalar = hmac_sha256_keyed(pk, tweak);
    point_add_scalar_bytes(pk, &scalar)
}

/// Applies a 32-byte tweak to a secret key; `pk` must be handed the
/// serialized public key of `sk` for the result to match
/// [`tweak_public_key`] on that public key.
pub fn tweak_secret_key(sk: &[u8; 32], pk: &[u8; 33], tweak: &[u8; 32]) -> (r: Option<[u8; 32]>)
    ensures
        opt32_view(r) == spec_tweaked_secret_key(sk@, pk@, tweak@),
{
    let scalar = hmac_sha256_keyed(pk, tweak);
    scalar_add_bytes(sk, &scalar)
}

} // verus!
