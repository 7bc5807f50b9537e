use jwglxt::crypto::rsa_encode;
use jwglxt::errors::AuthError;

fn test_key() -> (String, String) {
    // An odd 1024-bit modulus and the usual exponent; the key need not be
    // secure for the encoding round to run.
    let n = base64::encode(vec![0xffu8; 128]);
    let e = base64::encode(vec![0x01u8, 0x00, 0x01]);
    (n, e)
}

#[test]
fn encryption_yields_modulus_sized_ciphertext() {
    let (n, e) = test_key();
    let out = rsa_encode("secret-password", &n, &e).unwrap();
    let cipher = base64::decode(&out).unwrap();
    assert_eq!(cipher.len(), 128);
}

#[test]
fn two_encryptions_of_one_password_both_decode() {
    // The padding is random, so the ciphertexts need not agree; both must
    // still be well-formed base64 of full modulus size.
    let (n, e) = test_key();
    let a = rsa_encode("pw", &n, &e).unwrap();
    let b = rsa_encode("pw", &n, &e).unwrap();
    assert_eq!(base64::decode(&a).unwrap().len(), 128);
    assert_eq!(base64::decode(&b).unwrap().len(), 128);
}

#[test]
fn bad_key_material_is_encryption_error() {
    let (n, e) = test_key();
    assert_eq!(rsa_encode("pw", "!!!not base64!!!", &e).unwrap_err(), AuthError::EncryptionError);
    assert_eq!(rsa_encode("pw", &n, "???").unwrap_err(), AuthError::EncryptionError);
}

#[test]
fn too_small_modulus_is_encryption_error() {
    // A one-byte modulus leaves no room for the eleven padding bytes.
    let n = base64::encode(vec![0x0fu8]);
    let e = base64::encode(vec![0x01u8, 0x00, 0x01]);
    assert_eq!(rsa_encode("pw", &n, &e).unwrap_err(), AuthError::EncryptionError);
}
