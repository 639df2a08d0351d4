//! The cryptographic primitives the boundary relies on, taken from outside
//! crates: SHA-256 digests and Ed25519 signature checks.

use vstd::prelude::*;
use sha2::Digest;

verus! {

/// The SHA-256 digest of a byte string.
pub uninterp spec fn sha256(data: Seq<u8>) -> Seq<u8>;

/// `sha2::Sha256::digest`. Claimed: the 32 bytes returned are the SHA-256
/// digest of `data`, a function of `data` alone.
#[verifier::external_body]
pub(crate) fn sha256_digest(data: &[u8]) -> (r: [u8; 32])
    ensures
        r@ == sha256(data@),
{
    sha2::Sha256::digest(data).into()
}

/// `ed25519_dalek::SignatureError`, carried opaquely.
#[verifier::external_type_specification]
#[verifier::external_body]
pub struct ExSignatureError(ed25519_dalek::SignatureError);

/// `hex::FromHexError`, carried opaquely.
#[verifier::external_type_specification]
#[verifier::external_body]
pub struct ExFromHexError(hex::FromHexError);

/// Whether Ed25519 strict verification (RFC 8032, rejecting non-canonical and
/// small-order points) accepts `signature` over `message` under the public
/// key whose compressed encoding is `public_key`; false when that encoding
/// is not a curve point.
pub uninterp spec fn ed25519_strict_accepts(public_key: Seq<u8>, message: Seq<u8>, signature: Seq<u8>) -> bool;

/// `ed25519_dalek::Signature::from_slice` (with `Signature::to_bytes` to hand
/// the signature back as bytes). Claimed, as its source shows: it accepts
/// exactly the 64-byte inputs and keeps their bytes.
#[verifier::external_body]
pub(crate) fn signature_from_slice(bytes: &[u8]) -> (r: Result<[u8; 64], ed25519_dalek::SignatureError>)
    ensures
        r is Ok <==> bytes@.len() == 64,
        r matches Ok(sig) ==> sig@ == bytes@,
{
    match ed25519_dalek::Signature::from_slice(bytes) {
        Ok(sig) => Ok(sig.to_bytes()),
        Err(e) => Err(e),
    }
}

/// `ed25519_dalek::VerifyingKey::verify_strict`, on a key given by its
/// compressed bytes (decoded with `VerifyingKey::from_bytes`) and a signature
/// given by its bytes (`Signature::from_bytes`). Claimed: it succeeds exactly
/// when [`ed25519_strict_accepts`] holds of the three byte strings, a
/// function of them alone.
#[verifier::external_body]
pub(crate) fn ed25519_verify_strict(
    public_key: &[u8; 32],
    message: &[u8],
    signature: &[u8; 64],
) -> (r: Result<(), ed25519_dalek::SignatureError>)
    ensures
        r is Ok <==> ed25519_strict_accepts(public_key@, message@, signature@),
{
    let key = ed25519_dalek::VerifyingKey::from_bytes(public_key)?;
    key.verify_strict(message, &ed25519_dalek::Signature::from_bytes(signature))
}

// ---------------------------------------------------------------- hex decoding

pub open spec fn is_hex_byte(b: u8) -> bool {
    (0x30 <= b <= 0x39) || (0x41 <= b <= 0x46) || (0x61 <= b <= 0x66)
}

pub open spec fn hex_byte_value(b: u8) -> int {
    if 0x30 <= b <= 0x39 {
        b - 0x30
    } else if 0x41 <= b <= 0x46 {
        b - 0x41 + 10
    } else {
        b - 0x61 + 10
    }
}

/// Whether `data` is a whole number of hexadecimal digit pairs.
pub open spec fn is_hex_text(data: Seq<u8>) -> bool {
    &&& data.len() % 2 == 0
    &&& forall|i: int| 0 <= i < data.len() ==> is_hex_byte(#[trigger] data[i])
}

/// The bytes that pairs of hexadecimal digits (either case) spell.
pub open spec fn hex_decoded(data: Seq<u8>) -> Seq<u8> {
    Seq::new(
        data.len() / 2,
        |i: int| (hex_byte_value(data[2 * i]) * 16 + hex_byte_value(data[2 * i + 1])) as u8,
    )
}

/// `hex::decode`. Claimed, as its source shows: it succeeds exactly on an
/// even number of hexadecimal digits (either case) and returns the bytes
/// they spell, high digit first.
#[verifier::external_body]
pub(crate) fn hex_decode(data: &[u8]) -> (r: Result<Vec<u8>, hex::FromHexError>)
    ensures
        r is Ok <==> is_hex_text(data@),
        r matches Ok(v) ==> v@ == hex_decoded(data@),
{
    hex::decode(data)
}

} // verus!
