//! Cryptographic primitives used by the pairing handshake and the
//! control channel: SHA-256, AES-128-ECB without padding, AES-128-GCM,
//! X.509 certificate validation and random byte generation.
//!
//! All of them call into the `openssl` crate. Their results are opaque
//! to the verifier and carry names (`sha256_of`, ...) so that the logic
//! built on top can be given exact contracts.

use vstd::prelude::*;

verus! {

/// The SHA-256 digest of a byte string.
pub uninterp spec fn sha256_of(data: Seq<u8>) -> Seq<u8>;

/// The AES-128-ECB encryption (no padding) of a block-aligned byte string.
pub uninterp spec fn aes_ecb_encrypt_of(key: Seq<u8>, data: Seq<u8>) -> Seq<u8>;

/// The AES-128-ECB decryption (no padding) of a block-aligned byte string.
pub uninterp spec fn aes_ecb_decrypt_of(key: Seq<u8>, data: Seq<u8>) -> Seq<u8>;

/// The AES-128-GCM ciphertext and tag for a key, a nonce and a plaintext.
pub uninterp spec fn aes_gcm_seal_of(key: Seq<u8>, iv: Seq<u8>, plain: Seq<u8>) -> (Seq<u8>, Seq<u8>);

/// The AES-128-GCM decryption of a ciphertext and tag: the plaintext when
/// the tag authenticates, nothing otherwise.
pub uninterp spec fn aes_gcm_open_of(key: Seq<u8>, iv: Seq<u8>, ciphertext: Seq<u8>, tag: Seq<u8>) -> Option<Seq<u8>>;

/// Whether a byte string parses as a PEM-encoded X.509 certificate.
pub uninterp spec fn x509_pem_ok_of(pem: Seq<u8>) -> bool;

/// The largest input the openssl wrappers accept: the crate converts
/// buffer lengths to C `int`s and panics on anything longer, so such
/// inputs are ruled out by precondition.
pub const OPENSSL_MAX_INPUT: usize = 0x7FFFFFFF;

/// Relies on `openssl::sha::sha256`: the 32-byte SHA-256 digest, a
/// function of the input alone.
#[verifier::external_body]
pub(crate) fn sha256(data: &Vec<u8>) -> (r: Vec<u8>)
    ensures
        r@ == sha256_of(data@),
        r@.len() == 32,
{
    openssl::sha::sha256(data).to_vec()
}

/// Relies on `openssl::symm::Crypter` in encrypt mode with
/// `Cipher::aes_128_ecb` and padding disabled: on a 16-byte key and a
/// block-aligned input the cipher succeeds, keeps the length, and
/// decrypting the result with the same key gives the input back.
/// Inputs above `OPENSSL_MAX_INPUT` would panic in the crate's length
/// conversion and are excluded.
#[verifier::external_body]
pub(crate) fn aes_128_ecb_encrypt(key: &Vec<u8>, data: &Vec<u8>) -> (r: Vec<u8>)
    requires
        key@.len() == 16,
        data@.len() % 16 == 0,
        data@.len() <= OPENSSL_MAX_INPUT,
    ensures
        r@ == aes_ecb_encrypt_of(key@, data@),
        r@.len() == data@.len(),
        aes_ecb_decrypt_of(key@, r@) == data@,
{
    let cipher = openssl::symm::Cipher::aes_128_ecb();
    let mut c = openssl::symm::Crypter::new(cipher, openssl::symm::Mode::Encrypt, key, None)
        .expect("AES-128-ECB context");
    c.pad(false);
    let mut out = vec![0u8; data.len() + 16];
    let count = c.update(data, &mut out).expect("AES-128-ECB update");
    let rest = c.finalize(&mut out[count..]).expect("AES-128-ECB final");
    out.truncate(count + rest);
    out
}

/// Relies on `openssl::symm::Crypter` in decrypt mode with
/// `Cipher::aes_128_ecb` and padding disabled: on a 16-byte key and a
/// block-aligned input the cipher succeeds and keeps the length.
/// Inputs above `OPENSSL_MAX_INPUT` would panic in the crate's length
/// conversion and are excluded.
#[verifier::external_body]
pub(crate) fn aes_128_ecb_decrypt(key: &Vec<u8>, data: &Vec<u8>) -> (r: Vec<u8>)
    requires
        key@.len() == 16,
        data@.len() % 16 == 0,
        data@.len() <= OPENSSL_MAX_INPUT,
    ensures
        r@ == aes_ecb_decrypt_of(key@, data@),
        r@.len() == data@.len(),
{
    let cipher = openssl::symm::Cipher::aes_128_ecb();
    let mut c = openssl::symm::Crypter::new(cipher, openssl::symm::Mode::Decrypt, key, None)
        .expect("AES-128-ECB context");
    c.pad(false);
    let mut out = vec![0u8; data.len() + 16];
    let count = c.update(data, &mut out).expect("AES-128-ECB update");
    let rest = c.finalize(&mut out[count..]).expect("AES-128-ECB final");
    out.truncate(count + rest);
    out
}

/// Relies on `openssl::symm::encrypt_aead` with `Cipher::aes_128_gcm` and
/// no additional authenticated data: on a 16-byte key and a 12-byte
/// nonce the seal succeeds; the ciphertext is as long as the plaintext,
/// the ciphertext and 16-byte tag are a function of key, nonce and
/// plaintext, and `decrypt_aead` with the same key and nonce recovers
/// the plaintext. Plaintexts above `OPENSSL_MAX_INPUT` would panic in
/// the length conversion and are excluded.
#[verifier::external_body]
pub(crate) fn aes_128_gcm_seal(key: &Vec<u8>, iv: &Vec<u8>, plain: &Vec<u8>) -> (r: (Vec<u8>, Vec<u8>))
    requires
        key@.len() == 16,
        iv@.len() == 12,
        plain@.len() <= OPENSSL_MAX_INPUT,
    ensures
        (r.0@, r.1@) == aes_gcm_seal_of(key@, iv@, plain@),
        r.0@.len() == plain@.len(),
        r.1@.len() == 16,
        aes_gcm_open_of(key@, iv@, r.0@, r.1@) == Some(plain@),
{
    let mut tag = vec![0u8; 16];
    let cipher = openssl::symm::Cipher::aes_128_gcm();
    let ciphertext = openssl::symm::encrypt_aead(cipher, key, Some(iv), &[], plain, &mut tag)
        .expect("AES-128-GCM seal");
    (ciphertext, tag)
}

/// Relies on `openssl::symm::decrypt_aead` with `Cipher::aes_128_gcm` and
/// no additional authenticated data: returns the plaintext when the tag
/// authenticates the ciphertext and fails otherwise, a function of its
/// arguments alone. Ciphertexts above `OPENSSL_MAX_INPUT` would panic in
/// the length conversion and are excluded.
#[verifier::external_body]
pub(crate) fn aes_128_gcm_open(key: &Vec<u8>, iv: &Vec<u8>, ciphertext: &Vec<u8>, tag: &Vec<u8>) -> (r: Option<Vec<u8>>)
    requires
        key@.len() == 16,
        iv@.len() == 12,
        ciphertext@.len() <= OPENSSL_MAX_INPUT,
        tag@.len() == 16,
    ensures
        match r {
            Some(p) => aes_gcm_open_of(key@, iv@, ciphertext@, tag@) == Some(p@),
            None => aes_gcm_open_of(key@, iv@, ciphertext@, tag@) is None,
        },
{
    let cipher = openssl::symm::Cipher::aes_128_gcm();
    openssl::symm::decrypt_aead(cipher, key, Some(iv), &[], ciphertext, tag).ok()
}

/// Relies on `openssl::rand::rand_bytes`: fills the buffer with
/// cryptographically strong bytes. Nothing is claimed of the values.
#[verifier::external_body]
pub(crate) fn random_bytes_16() -> (r: Option<Vec<u8>>)
    ensures
        r matches Some(v) ==> v@.len() == 16,
{
    let mut buf = vec![0u8; 16];
    match openssl::rand::rand_bytes(&mut buf) {
        Ok(()) => Some(buf),
        Err(_) => None,
    }
}

/// Relies on `openssl::x509::X509::from_pem`: whether the bytes parse as
/// a PEM-encoded certificate, a function of the bytes alone. Inputs above
/// `OPENSSL_MAX_INPUT` would panic in the memory BIO's length assertion
/// and are excluded.
#[verifier::external_body]
pub(crate) fn x509_pem_ok(pem: &Vec<u8>) -> (r: bool)
    requires
        pem@.len() <= OPENSSL_MAX_INPUT,
    ensures
        r == x509_pem_ok_of(pem@),
{
    openssl::x509::X509::from_pem(pem).is_ok()
}

} // verus!
