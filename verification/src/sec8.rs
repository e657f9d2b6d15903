//! The crypto collaborators: fresh elliptic-curve key pairs used as random
//! identifiers, and a demonstration-only RSA encrypt/decrypt round trip on
//! payload bytes. Nothing here gates block acceptance.

use vstd::prelude::*;

verus! {

/// Relies on secp256k1 `Secp256k1::generate_keypair`: draws a fresh random
/// key pair and hands back the display forms of its secret and public halves.
/// The result is random; nothing is promised of it.
#[verifier::external_body]
pub(crate) fn fresh_keypair() -> (String, String) {
    let secp = secp256k1::Secp256k1::new();
    let (sk, pk) = secp.generate_keypair(&mut rand::rngs::OsRng);
    (sk.display_secret().to_string(), pk.to_string())
}

/// A fresh random identifier for a transaction: the display forms of a newly
/// drawn elliptic-curve key pair.
pub fn sec8_tx_id_hash() -> (String, String) {
    fresh_keypair()
}

/// A fresh random identifier for a block: the display forms of a newly drawn
/// elliptic-curve key pair.
pub fn sec8_block_id_hash() -> (String, String) {
    fresh_keypair()
}

/// Relies on rsa `RsaPrivateKey::new` and `RsaPublicKey::encrypt`: generates
/// a fresh RSA key of `bits_size` bits and encrypts `block_data` under
/// PKCS#1 v1.5. A ciphertext fills exactly the modulus width. Generation
/// retries until it succeeds and has no failure path from 64 bits up, key
/// validation caps the modulus at 4096 bits, and the padding step fails
/// exactly when the data overruns the modulus width less its eleven padding
/// bytes.
#[verifier::external_body]
pub fn sec8_encrypt_block_data(bits_size: usize, block_data: &[u8]) -> (r: Option<Vec<u8>>)
    ensures
        r matches Some(ct) ==> ct@.len() == (bits_size + 7) / 8,
        64 <= bits_size <= 4096 && block_data@.len() + 11 <= (bits_size + 7) / 8 ==> r is Some,
        block_data@.len() + 11 > (bits_size + 7) / 8 ==> r is None,
{
    let mut rng = rand::thread_rng();
    let secret = match rsa::RsaPrivateKey::new(&mut rng, bits_size) {
        Ok(k) => k,
        Err(_) => return None,
    };
    let public = rsa::RsaPublicKey::from(&secret);
    public.encrypt(&mut rng, rsa::Pkcs1v15Encrypt, block_data).ok()
}

/// Relies on rsa `RsaPrivateKey::decrypt`: generates a fresh RSA key of
/// `bits_size` bits and attempts a PKCS#1 v1.5 decryption of `block_data`
/// under it. As the key is fresh, decryption of real ciphertext is expected
/// to fail; the function exists to exercise the collaborator.
#[verifier::external_body]
pub fn sec8_decrypt_block_data(bits_size: usize, block_data: &[u8]) -> (r: Option<Vec<u8>>) {
    let mut rng = rand::thread_rng();
    let secret = match rsa::RsaPrivateKey::new(&mut rng, bits_size) {
        Ok(k) => k,
        Err(_) => return None,
    };
    secret.decrypt(rsa::Pkcs1v15Encrypt, block_data).ok()
}

/// Relies on rsa: draws one fresh key of `bits_size` bits, encrypts `data`
/// under PKCS#1 v1.5 with its public half and decrypts with its secret half,
/// returning the decrypted bytes. Unpadding a genuine ciphertext under the
/// matching key returns exactly the bytes that were padded; generation has
/// no failure path from 64 bits up to the 4096-bit validation cap; and the
/// padding step fails exactly when the data overruns the modulus width less
/// its eleven padding bytes.
#[verifier::external_body]
fn rsa_round_trip(bits_size: usize, data: &[u8]) -> (r: Option<Vec<u8>>)
    ensures
        r matches Some(d) ==> d@ == data@,
        64 <= bits_size <= 4096 && data@.len() + 11 <= (bits_size + 7) / 8 ==> r is Some,
        data@.len() + 11 > (bits_size + 7) / 8 ==> r is None,
{
    let mut rng = rand::thread_rng();
    let secret = match rsa::RsaPrivateKey::new(&mut rng, bits_size) {
        Ok(k) => k,
        Err(_) => return None,
    };
    let public = rsa::RsaPublicKey::from(&secret);
    let ct = match public.encrypt(&mut rng, rsa::Pkcs1v15Encrypt, data) {
        Ok(c) => c,
        Err(_) => return None,
    };
    secret.decrypt(rsa::Pkcs1v15Encrypt, &ct).ok()
}

/// Whether two byte slices hold the same bytes.
pub fn bytes_eq(a: &[u8], b: &[u8]) -> (r: bool)
    ensures
        r == (a@ == b@),
{
    if a.len() != b.len() {
        assert(a@.len() != b@.len());
        return false;
    }
    let n = a.len();
    let mut i: usize = 0;
    while i < n
        invariant
            n == a@.len() == b@.len(),
            0 <= i <= n,
            forall|j: int| 0 <= j < i ==> a@[j] == b@[j],
        decreases n - i,
    {
        if a[i] != b[i] {
            return false;
        }
        i = i + 1;
    }
    assert(a@ =~= b@);
    true
}

/// Demonstration check on a payload: encrypts and decrypts it with one fresh
/// 2048-bit RSA key and reports whether the decrypted bytes equal the
/// original. It succeeds exactly when the payload fits the modulus width
/// less its padding; it never gates block acceptance.
pub fn check_payload_round_trip(data: &[u8]) -> (r: bool)
    ensures
        r == (data@.len() + 11 <= 256),
{
    match rsa_round_trip(2048, data) {
        Some(back) => bytes_eq(back.as_slice(), data),
        None => false,
    }
}

} // verus!
