//! What the host takes from the cryptographic libraries: SHA-256 digests and the
//! decoding of Ed25519 keys and signatures. The items of this file are believed, not
//! proved; each says what it claims of the function it calls.
use vstd::prelude::*;

verus! {

/// An Ed25519 public key that was decoded successfully.
#[verifier::external_type_specification]
#[verifier::external_body]
pub struct ExPublicKey(ed25519_dalek::PublicKey);

/// An Ed25519 signature.
#[verifier::external_type_specification]
#[verifier::external_body]
pub struct ExSignature(ed25519_dalek::Signature);

/// Why a key or a signature could not be decoded.
#[verifier::external_type_specification]
#[verifier::external_body]
pub struct ExSignatureError(ed25519_dalek::SignatureError);

/// The SHA-256 digest of `bytes`.
pub uninterp spec fn sha256_digest(bytes: Seq<u8>) -> Seq<u8>;

/// Whether `bytes`, taken as the compressed form of a point of the Edwards curve,
/// decompress to a point.
pub uninterp spec fn ed25519_point_decompresses(bytes: Seq<u8>) -> bool;

/// Whether the last byte of a signature leaves its three highest bits unset, as the
/// scalar of a well-formed signature does.
pub open spec fn signature_scalar_is_reduced(bytes: Seq<u8>) -> bool {
    bytes.len() == 64 && bytes[63] & 0xe0 == 0
}

/// Calls `Digest::digest` of `sha2::Sha256`. The contract claims that the result is
/// the SHA-256 digest of the input, a function of the input alone, and that it is 32
/// bytes long, which is the output size that the type fixes.
#[verifier::external_body]
pub(crate) fn sha256(bytes: &[u8]) -> (r: Vec<u8>)
    ensures
        r@ == sha256_digest(bytes@),
        r@.len() == 32,
{
    <sha2::Sha256 as sha2::Digest>::digest(bytes).as_slice().to_vec()
}

/// Calls `ed25519_dalek::PublicKey::from_bytes`. The contract claims what the body
/// of that function shows: it succeeds if and only if it is given exactly 32 bytes
/// and they decompress to a point of the curve.
#[verifier::external_body]
pub(crate) fn public_key_from_bytes(bytes: &[u8]) -> (r: Result<
    ed25519_dalek::PublicKey,
    ed25519_dalek::SignatureError,
>)
    ensures
        r.is_ok() == (bytes@.len() == 32 && ed25519_point_decompresses(bytes@)),
{
    ed25519_dalek::PublicKey::from_bytes(bytes)
}

/// Calls the conversion of an array of 64 bytes into an `ed25519_dalek::Signature`.
/// That conversion panics when one of the three highest bits of the last byte is
/// set, so such arrays are left out. Nothing is claimed of the result.
#[verifier::external_body]
pub(crate) fn signature_from_array(bytes: [u8; 64]) -> (r: ed25519_dalek::Signature)
    requires
        signature_scalar_is_reduced(bytes@),
{
    ed25519_dalek::Signature::from(bytes)
}

/// Why a slice could not be converted into an array.
#[verifier::external_type_specification]
#[verifier::external_body]
pub struct ExTryFromSliceError(core::array::TryFromSliceError);

/// Calls the conversion of a slice into an array, `TryFrom<&[T]>` of `[T; N]`. The
/// contract claims what its documentation says: it succeeds if and only if the slice
/// has `N` elements, and the array then holds a copy of them.
#[verifier::external_body]
pub(crate) fn array_from_slice<const N: usize>(bytes: &[u8]) -> (r: Result<
    [u8; N],
    core::array::TryFromSliceError,
>)
    ensures
        bytes@.len() == N ==> r is Ok && r->Ok_0@ == bytes@,
        bytes@.len() != N ==> r is Err,
{
    <[u8; N]>::try_from(bytes)
}

} // verus!
