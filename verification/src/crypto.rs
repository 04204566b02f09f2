//! Hashing and signing capabilities of the engine.
//!
//! The protocol does not prescribe a hash or signature algorithm; they are
//! capability parameters chosen at engine construction.  This engine instance
//! uses variable-output BLAKE2b digests for content addressing (8-byte
//! digests for unit hashes, 32-byte digests for candidate blocks), and an
//! additive toy signature scheme over 64-bit keys whose verification relation
//! is fully stated, so that validity of accepted units is provable.

use vstd::prelude::*;

verus! {

/// The 8-byte BLAKE2b digest of a byte string, read as a little-endian
/// integer.  The digest is a function of the input bytes alone.
pub uninterp spec fn blake2b64_of(bytes: Seq<u8>) -> u64;

/// The 32-byte BLAKE2b digest of a byte string.  The digest is a function of
/// the input bytes alone.
pub uninterp spec fn blake2b256_of(bytes: Seq<u8>) -> Seq<u8>;

/// Relies on blake2's `Blake2b` hasher with an 8-byte output size: the digest
/// depends on the input bytes alone, and has exactly the requested length.
#[verifier::external_body]
pub(crate) fn blake2b_hash64(bytes: &Vec<u8>) -> (r: u64)
    ensures
        r == blake2b64_of(bytes@),
{
    let mut hasher = <blake2::Blake2b<blake2::digest::consts::U8> as blake2::Digest>::new();
    blake2::Digest::update(&mut hasher, bytes.as_slice());
    let out: [u8; 8] = blake2::Digest::finalize(hasher).into();
    u64::from_le_bytes(out)
}

/// Relies on blake2's `Blake2b` hasher with a 32-byte output size: the digest
/// depends on the input bytes alone, and has exactly the requested length.
#[verifier::external_body]
pub(crate) fn blake2b_hash256(bytes: &Vec<u8>) -> (r: Vec<u8>)
    ensures
        r@ == blake2b256_of(bytes@),
        r@.len() == 32,
{
    let mut hasher = <blake2::Blake2b<blake2::digest::consts::U32> as blake2::Digest>::new();
    blake2::Digest::update(&mut hasher, bytes.as_slice());
    let out: [u8; 32] = blake2::Digest::finalize(hasher).into();
    let mut v = Vec::with_capacity(32);
    v.extend_from_slice(&out);
    v
}

/// A validator's public key.
#[derive(Clone, Copy, PartialEq, Eq, Structural, Debug)]
pub struct PublicKey {
    pub key: u64,
}

/// A validator's secret signing key.  A signature made with a secret key
/// verifies under the public key holding the same key value.
#[derive(Clone, Copy, PartialEq, Eq, Structural, Debug)]
pub struct SecretKey {
    pub key: u64,
}

/// A signature over a 64-bit digest.
#[derive(Clone, Copy, PartialEq, Eq, Structural, Debug)]
pub struct Signature {
    pub sig: u64,
}

/// What a signature with key `key` over digest `h` is.
pub open spec fn spec_sign(key: u64, h: u64) -> u64 {
    key.wrapping_add(h)
}

impl SecretKey {
    pub fn new(key: u64) -> (r: SecretKey)
        ensures
            r.key == key,
    {
        SecretKey { key }
    }

    /// The public key under which this key's signatures verify.
    pub fn public_key(&self) -> (r: PublicKey)
        ensures
            r.key == self.key,
    {
        PublicKey { key: self.key }
    }

    /// Signs a 64-bit digest.
    pub fn sign(&self, h: u64) -> (r: Signature)
        ensures
            r.sig == spec_sign(self.key, h),
    {
        Signature { sig: self.key.wrapping_add(h) }
    }
}

impl PublicKey {
    pub fn new(key: u64) -> (r: PublicKey)
        ensures
            r.key == key,
    {
        PublicKey { key }
    }

    /// Whether `sig` is a valid signature over digest `h` under this key.
    pub fn verify(&self, h: u64, sig: &Signature) -> (r: bool)
        ensures
            r == (sig.sig == spec_sign(self.key, h)),
    {
        sig.sig == self.key.wrapping_add(h)
    }
}

/// A 64-bit finalization mix (the splitmix64 output function): used to turn
/// `seed + round_id` into a pseudo-random weight unit for leader selection.
/// Identical inputs yield an identical leader on every node.
pub open spec fn spec_mix64(z0: u64) -> u64 {
    let z1 = z0.wrapping_add(0x9E37_79B9_7F4A_7C15);
    let z2 = (z1 ^ (z1 >> 30)).wrapping_mul(0xBF58_476D_1CE4_E5B9);
    let z3 = (z2 ^ (z2 >> 27)).wrapping_mul(0x94D0_49BB_1331_11EB);
    z3 ^ (z3 >> 31)
}

/// Computes the 64-bit mix of `z0`.
pub fn mix64(z0: u64) -> (r: u64)
    ensures
        r == spec_mix64(z0),
{
    let z1 = z0.wrapping_add(0x9E37_79B9_7F4A_7C15);
    let z2 = (z1 ^ (z1 >> 30)).wrapping_mul(0xBF58_476D_1CE4_E5B9);
    let z3 = (z2 ^ (z2 >> 27)).wrapping_mul(0x94D0_49BB_1331_11EB);
    z3 ^ (z3 >> 31)
}

} // verus!
