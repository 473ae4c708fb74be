//! Hash functions and secp256k1 curve operations of outside crates, on byte strings.

use vstd::prelude::*;

use secp256k1::{PublicKey, Scalar, SecretKey, SECP256K1};
use sha2::Digest;

use crate::num::le_val;

verus! {

/// Name for the SHA-256 digest of a byte string.
pub uninterp spec fn sha256_of(data: Seq<u8>) -> Seq<u8>;

/// Name for the SHA-512 digest of a byte string.
pub uninterp spec fn sha512_of(data: Seq<u8>) -> Seq<u8>;

/// Name for the RIPEMD-160 digest of a byte string.
pub uninterp spec fn ripemd160_of(data: Seq<u8>) -> Seq<u8>;

/// Name for the uncompressed public key (64 bytes, without the format byte) of a big-endian
/// secret key, when the key is valid.
pub uninterp spec fn secp_gen_of(secret: Seq<u8>) -> Option<Seq<u8>>;

/// Name for the product of a point (64 uncompressed bytes) and a little-endian scalar, when
/// the point parses and the product is valid.
pub uninterp spec fn secp_mul_of(scalar: Seq<u8>, point: Seq<u8>) -> Option<Seq<u8>>;

/// Name for the sum of two points, when both parse and the sum is not the point at infinity.
pub uninterp spec fn secp_add_of(p1: Seq<u8>, p2: Seq<u8>) -> Option<Seq<u8>>;

/// Name for the negation of a point, when it parses.
pub uninterp spec fn secp_neg_of(point: Seq<u8>) -> Option<Seq<u8>>;

/// Order of the secp256k1 group.
pub open spec fn secp_order() -> nat {
    0xFFFF_FFFF_FFFF_FFFF_FFFF_FFFF_FFFF_FFFE_BAAE_DCE6_AF48_A03B_BFD2_5E8C_D036_4141nat
}

/// `Sha256::digest` of the `sha2` crate: the 32-byte SHA-256 digest of `data`.
#[verifier::external_body]
pub(crate) fn sha256(data: &[u8]) -> (r: Vec<u8>)
    ensures
        r@ == sha256_of(data@),
        r@.len() == 32,
{
    sha2::Sha256::digest(data).to_vec()
}

/// `Sha512::digest` of the `sha2` crate: the 64-byte SHA-512 digest of `data`.
#[verifier::external_body]
pub(crate) fn sha512(data: &[u8]) -> (r: Vec<u8>)
    ensures
        r@ == sha512_of(data@),
        r@.len() == 64,
{
    sha2::Sha512::digest(data).to_vec()
}

/// `Ripemd160::digest` of the `ripemd` crate: the 20-byte RIPEMD-160 digest of `data`, in the
/// order the hash function writes it.
#[verifier::external_body]
pub(crate) fn ripemd160(data: &[u8]) -> (r: Vec<u8>)
    ensures
        r@ == ripemd160_of(data@),
        r@.len() == 20,
{
    ripemd::Ripemd160::digest(data).to_vec()
}

/// `PublicKey::from_secret_key` of the `secp256k1` crate on a key parsed by
/// `SecretKey::from_slice`, serialized uncompressed without the format byte. Parsing succeeds
/// exactly for 32 bytes whose big-endian value is a non-zero number below the group order.
#[verifier::external_body]
pub(crate) fn secp_gen(secret: &[u8]) -> (r: Option<Vec<u8>>)
    ensures
        r.deep_view() == secp_gen_of(secret@),
        r.is_some() == (secret@.len() == 32 && 0 < le_val(secret@.reverse()) < secp_order()),
        r matches Some(v) ==> v@.len() == 64,
{
    SecretKey::from_slice(secret).ok().map(
        |sk| PublicKey::from_secret_key(SECP256K1, &sk).serialize_uncompressed()[1..].to_vec(),
    )
}

/// `PublicKey::mul_tweak` of the `secp256k1` crate: the point (parsed by
/// `PublicKey::from_slice` from the uncompressed format byte and 64 bytes) times the scalar
/// (parsed by `Scalar::from_le_bytes`), serialized uncompressed without the format byte. A
/// result needs a scalar that is non-zero and below the group order.
#[verifier::external_body]
pub(crate) fn secp_mul(scalar: &[u8; 32], point: &[u8]) -> (r: Option<Vec<u8>>)
    requires
        point@.len() == 64,
    ensures
        r.deep_view() == secp_mul_of(scalar@, point@),
        r is Some ==> 0 < le_val(scalar@) < secp_order(),
        r matches Some(v) ==> v@.len() == 64,
{
    let mut pk = [4u8; 65];
    pk[1..].copy_from_slice(point);
    let pk = PublicKey::from_slice(&pk).ok()?;
    let scal = Scalar::from_le_bytes(*scalar).ok()?;
    pk.mul_tweak(SECP256K1, &scal).ok().map(|p| p.serialize_uncompressed()[1..].to_vec())
}

/// `PublicKey::combine` of the `secp256k1` crate on two points parsed by `PublicKey::from_slice`
/// from the uncompressed format, serialized the same way without the format byte.
#[verifier::external_body]
pub(crate) fn secp_add(p1: &[u8], p2: &[u8]) -> (r: Option<Vec<u8>>)
    requires
        p1@.len() == 64,
        p2@.len() == 64,
    ensures
        r.deep_view() == secp_add_of(p1@, p2@),
        r matches Some(v) ==> v@.len() == 64,
{
    let mut a = [4u8; 65];
    a[1..].copy_from_slice(p1);
    let mut b = [4u8; 65];
    b[1..].copy_from_slice(p2);
    let a = PublicKey::from_slice(&a).ok()?;
    let b = PublicKey::from_slice(&b).ok()?;
    a.combine(&b).ok().map(|p| p.serialize_uncompressed()[1..].to_vec())
}

/// `PublicKey::negate` of the `secp256k1` crate on a point parsed by `PublicKey::from_slice`
/// from the uncompressed format, serialized the same way without the format byte.
#[verifier::external_body]
pub(crate) fn secp_neg(point: &[u8]) -> (r: Option<Vec<u8>>)
    requires
        point@.len() == 64,
    ensures
        r.deep_view() == secp_neg_of(point@),
        r matches Some(v) ==> v@.len() == 64,
{
    let mut pk = [4u8; 65];
    pk[1..].copy_from_slice(point);
    PublicKey::from_slice(&pk).ok().map(
        |p| p.negate(SECP256K1).serialize_uncompressed()[1..].to_vec(),
    )
}

} // verus!
