use vstd::prelude::*;
use vstd::string::StringSliceAdditionalSpecFns;

use crate::errors::AuthError;
use rsa::PublicKey;
use rsa::PublicKeyParts;

verus! {

// ---------------------------------------------------------------------------
// Outside calls this module leans on
// ---------------------------------------------------------------------------

/// What decoding a standard-alphabet base64 string yields: some byte
/// sequence, or nothing when the input is not valid base64.
pub uninterp spec fn b64_decode_of(s: Seq<char>) -> Option<Seq<u8>>;

/// What encoding a byte sequence as standard-alphabet base64 yields.
pub uninterp spec fn b64_encode_of(b: Seq<u8>) -> Seq<char>;

/// Whether RSA encryption accepts the public key built of these big-endian
/// modulus and exponent bytes for a message of this byte length: the
/// exponent within the crate's bounds and the length at most the modulus
/// size less the eleven padding bytes.
pub uninterp spec fn rsa_accepts(n_bytes: Seq<u8>, e_bytes: Seq<u8>, msg_len: int) -> bool;

/// Relies on base64::decode (standard alphabet, 0.13): the result depends on
/// the input characters alone.
#[verifier::external_body]
fn b64_decode(s: &str) -> (r: Option<Vec<u8>>)
    ensures
        r is Some <==> b64_decode_of(s@) is Some,
        r matches Some(b) ==> Some(b@) == b64_decode_of(s@),
{
    base64::decode(s).ok()
}

/// Relies on base64::encode (standard alphabet, 0.13): the result depends on
/// the input bytes alone.
#[verifier::external_body]
fn b64_encode(b: &[u8]) -> (r: String)
    ensures
        r@ == b64_encode_of(b@),
{
    base64::encode(b)
}

/// Relies on rsa 0.6: BigUint::from_bytes_be, RsaPublicKey::new, and encrypt
/// with PKCS#1 v1.5 padding and the operating system's random source — one
/// composite call, since only whether it succeeds can be stated over plain
/// values. Success depends on the arguments alone: the exponent bounds that
/// RsaPublicKey::new checks, and the message limit of the modulus size less
/// eleven padding bytes (the guard repeats that documented bound because the
/// crate's own check indexes out of bounds on a modulus shorter than the
/// padding instead of failing). The ciphertext itself is random each call;
/// nothing is claimed of its value.
#[verifier::external_body]
fn rsa_encrypt_pkcs1v15(n_bytes: &[u8], e_bytes: &[u8], msg: &[u8]) -> (r: Option<Vec<u8>>)
    ensures
        r is Some <==> rsa_accepts(n_bytes@, e_bytes@, msg@.len() as int),
{
    let n = rsa::BigUint::from_bytes_be(n_bytes);
    let e = rsa::BigUint::from_bytes_be(e_bytes);
    let key = rsa::RsaPublicKey::new(n, e).ok()?;
    if msg.len() + 11 > key.size() {
        return None;
    }
    key.encrypt(&mut rand::rngs::OsRng, rsa::PaddingScheme::new_pkcs1v15_encrypt(), msg).ok()
}

// ---------------------------------------------------------------------------
// Password encryption
// ---------------------------------------------------------------------------

/// Encrypt a password with the portal's RSA public key, handed over as
/// base64-encoded big-endian modulus and exponent, and hand the ciphertext
/// back base64-encoded. It succeeds exactly when both key fields decode and
/// RSA accepts the decoded key for a message of the password's byte length;
/// any failure is `EncryptionError`. The ciphertext itself is freshly
/// random each call.
pub fn rsa_encode(pwd: &str, n_b64: &str, e_b64: &str) -> (r: Result<String, AuthError>)
    ensures
        r is Err ==> r == Result::<String, AuthError>::Err(AuthError::EncryptionError),
        r is Ok <==> b64_decode_of(n_b64@) is Some && b64_decode_of(e_b64@) is Some
            && rsa_accepts(
            b64_decode_of(n_b64@)->Some_0,
            b64_decode_of(e_b64@)->Some_0,
            pwd.spec_bytes().len() as int,
        ),
        r matches Result::Ok(c) ==> exists|cipher: Seq<u8>| c@ == b64_encode_of(cipher),
{
    let n_bytes = match b64_decode(n_b64) {
        Option::Some(b) => b,
        Option::None => {
            return Result::Err(AuthError::EncryptionError);
        },
    };
    let e_bytes = match b64_decode(e_b64) {
        Option::Some(b) => b,
        Option::None => {
            return Result::Err(AuthError::EncryptionError);
        },
    };
    let cipher = match rsa_encrypt_pkcs1v15(
        n_bytes.as_slice(),
        e_bytes.as_slice(),
        pwd.as_bytes(),
    ) {
        Option::Some(c) => c,
        Option::None => {
            return Result::Err(AuthError::EncryptionError);
        },
    };
    let encoded = b64_encode(cipher.as_slice());
    proof {
        assert(exists|c: Seq<u8>| encoded@ == b64_encode_of(c)) by {
            assert(encoded@ == b64_encode_of(cipher@));
        }
    }
    Result::Ok(encoded)
}

} // verus!
