//! AEAD primitives for NTS packet protection.
//!
//! NTS protects packets with AES-SIV-CMAC: `AEAD_AES_SIV_CMAC_256`
//! uses a 32-byte key and `AEAD_AES_SIV_CMAC_512` a 64-byte key. The
//! cipher calls go to the `aes_siv` crate; everything above the two
//! raw calls is verified against the named results below.

use vstd::prelude::*;
use aes_siv::KeyInit;

verus! {

/// What AES-SIV-CMAC-256 encryption returns for a key, nonce,
/// associated data and plaintext: the 16-byte synthetic IV followed by
/// the ciphertext. Deterministic in its arguments.
pub uninterp spec fn siv256_sealed(key: Seq<u8>, nonce: Seq<u8>, ad: Seq<u8>, pt: Seq<u8>) -> Seq<
    u8,
>;

/// What AES-SIV-CMAC-256 decryption returns for a key, nonce,
/// associated data and ciphertext: the plaintext when the synthetic IV
/// authenticates, nothing otherwise. Deterministic in its arguments.
pub uninterp spec fn siv256_opened(key: Seq<u8>, nonce: Seq<u8>, ad: Seq<u8>, ct: Seq<u8>) -> Option<
    Seq<u8>,
>;

/// What AES-SIV-CMAC-512 encryption returns; as for the 256-bit
/// variant but with a 64-byte key.
pub uninterp spec fn siv512_sealed(key: Seq<u8>, nonce: Seq<u8>, ad: Seq<u8>, pt: Seq<u8>) -> Seq<
    u8,
>;

/// What AES-SIV-CMAC-512 decryption returns; as for the 256-bit
/// variant but with a 64-byte key.
pub uninterp spec fn siv512_opened(key: Seq<u8>, nonce: Seq<u8>, ad: Seq<u8>, ct: Seq<u8>) -> Option<
    Seq<u8>,
>;

/// Relies on `aes_siv::siv::Aes128Siv::encrypt` (RFC 5297,
/// AEAD_AES_SIV_CMAC_256) with the two headers `[ad, nonce]`:
/// deterministic in key, headers and plaintext; returns the 16-byte
/// synthetic IV followed by a ciphertext of the plaintext's length;
/// decryption with the same key and headers recovers the plaintext.
/// With a 32-byte key and two headers the call cannot fail.
#[verifier::external_body]
fn siv256_seal(key: &[u8], nonce: &[u8], ad: &[u8], pt: &[u8]) -> (r: Vec<u8>)
    requires
        key@.len() == 32,
    ensures
        r@ == siv256_sealed(key@, nonce@, ad@, pt@),
        r@.len() == pt@.len() + 16,
        siv256_opened(key@, nonce@, ad@, r@) == Some(pt@),
{
    match aes_siv::siv::Aes128Siv::new_from_slice(key) {
        Ok(mut siv) => match siv.encrypt([ad, nonce], pt) {
            Ok(ct) => ct,
            Err(_) => Vec::new(),
        },
        Err(_) => Vec::new(),
    }
}

/// Relies on `aes_siv::siv::Aes128Siv::decrypt` (RFC 5297,
/// AEAD_AES_SIV_CMAC_256) with the two headers `[ad, nonce]`:
/// deterministic in key, headers and ciphertext; succeeds exactly when
/// the leading synthetic IV authenticates the rest, returning a
/// plaintext 16 bytes shorter than the ciphertext.
#[verifier::external_body]
fn siv256_open(key: &[u8], nonce: &[u8], ad: &[u8], ct: &[u8]) -> (r: Option<Vec<u8>>)
    requires
        key@.len() == 32,
    ensures
        match r {
            Some(p) => siv256_opened(key@, nonce@, ad@, ct@) == Some(p@) && p@.len() + 16
                == ct@.len(),
            None => siv256_opened(key@, nonce@, ad@, ct@) is None,
        },
{
    match aes_siv::siv::Aes128Siv::new_from_slice(key) {
        Ok(mut siv) => match siv.decrypt([ad, nonce], ct) {
            Ok(pt) => Some(pt),
            Err(_) => None,
        },
        Err(_) => None,
    }
}

/// Relies on `aes_siv::siv::Aes256Siv::encrypt` (RFC 5297,
/// AEAD_AES_SIV_CMAC_512) with the two headers `[ad, nonce]`; as the
/// 256-bit variant but with a 64-byte key.
#[verifier::external_body]
fn siv512_seal(key: &[u8], nonce: &[u8], ad: &[u8], pt: &[u8]) -> (r: Vec<u8>)
    requires
        key@.len() == 64,
    ensures
        r@ == siv512_sealed(key@, nonce@, ad@, pt@),
        r@.len() == pt@.len() + 16,
        siv512_opened(key@, nonce@, ad@, r@) == Some(pt@),
{
    match aes_siv::siv::Aes256Siv::new_from_slice(key) {
        Ok(mut siv) => match siv.encrypt([ad, nonce], pt) {
            Ok(ct) => ct,
            Err(_) => Vec::new(),
        },
        Err(_) => Vec::new(),
    }
}

/// Relies on `aes_siv::siv::Aes256Siv::decrypt` (RFC 5297,
/// AEAD_AES_SIV_CMAC_512) with the two headers `[ad, nonce]`; as the
/// 256-bit variant but with a 64-byte key.
#[verifier::external_body]
fn siv512_open(key: &[u8], nonce: &[u8], ad: &[u8], ct: &[u8]) -> (r: Option<Vec<u8>>)
    requires
        key@.len() == 64,
    ensures
        match r {
            Some(p) => siv512_opened(key@, nonce@, ad@, ct@) == Some(p@) && p@.len() + 16
                == ct@.len(),
            None => siv512_opened(key@, nonce@, ad@, ct@) is None,
        },
{
    match aes_siv::siv::Aes256Siv::new_from_slice(key) {
        Ok(mut siv) => match siv.decrypt([ad, nonce], ct) {
            Ok(pt) => Some(pt),
            Err(_) => None,
        },
        Err(_) => None,
    }
}

/// Whether a byte string has the length of a supported AEAD key.
pub open spec fn spec_key_len_ok(key: Seq<u8>) -> bool {
    key.len() == 32 || key.len() == 64
}

/// What sealing with the key's algorithm returns.
pub open spec fn spec_aead_sealed(key: Seq<u8>, nonce: Seq<u8>, ad: Seq<u8>, pt: Seq<u8>) -> Seq<
    u8,
> {
    if key.len() == 32 {
        siv256_sealed(key, nonce, ad, pt)
    } else {
        siv512_sealed(key, nonce, ad, pt)
    }
}

/// What opening with the key's algorithm returns.
pub open spec fn spec_aead_opened(key: Seq<u8>, nonce: Seq<u8>, ad: Seq<u8>, ct: Seq<u8>) -> Option<
    Seq<u8>,
> {
    if key.len() == 32 {
        siv256_opened(key, nonce, ad, ct)
    } else {
        siv512_opened(key, nonce, ad, ct)
    }
}

/// Seal a plaintext under the algorithm the key length selects.
pub fn aead_seal(key: &Vec<u8>, nonce: &Vec<u8>, ad: &[u8], pt: &[u8]) -> (r: Vec<u8>)
    requires
        spec_key_len_ok(key@),
    ensures
        r@ == spec_aead_sealed(key@, nonce@, ad@, pt@),
        r@.len() == pt@.len() + 16,
        spec_aead_opened(key@, nonce@, ad@, r@) == Some(pt@),
{
    if key.len() == 32 {
        siv256_seal(key.as_slice(), nonce.as_slice(), ad, pt)
    } else {
        siv512_seal(key.as_slice(), nonce.as_slice(), ad, pt)
    }
}

/// Open a ciphertext under the algorithm the key length selects.
pub fn aead_open(key: &Vec<u8>, nonce: &Vec<u8>, ad: &[u8], ct: &[u8]) -> (r: Option<Vec<u8>>)
    requires
        spec_key_len_ok(key@),
    ensures
        match r {
            Some(p) => spec_aead_opened(key@, nonce@, ad@, ct@) == Some(p@) && p@.len() + 16
                == ct@.len(),
            None => spec_aead_opened(key@, nonce@, ad@, ct@) is None,
        },
{
    if key.len() == 32 {
        siv256_open(key.as_slice(), nonce.as_slice(), ad, ct)
    } else {
        siv512_open(key.as_slice(), nonce.as_slice(), ad, ct)
    }
}

} // verus!
