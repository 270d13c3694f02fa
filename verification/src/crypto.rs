//! The calls into OpenSSL and the one call into std that Verus has no
//! specification for.
//!
//! Nothing in this file is proved. Each function here makes one outside
//! computation and states what the rest of the library relies on: that the
//! result is the one that the named function gives for these arguments.

use vstd::prelude::*;
use vstd::utf8::{decode_utf8, encode_utf8, valid_utf8};

verus! {

/// The length of a session key in bytes: that of a key of AES-256.
pub const KEY_LEN: usize = 32;

/// The longest input in bytes that is handed to OpenSSL. It keeps every
/// length that OpenSSL computes from it within a C `int`.
pub const MAX_INPUT: usize = 0x4000_0000;

#[verifier::external_type_specification]
#[verifier::external_body]
pub struct ExErrorStack(openssl::error::ErrorStack);

/// What `openssl::base64::encode_block` makes of `bytes`.
pub uninterp spec fn base64_encode(bytes: Seq<u8>) -> Seq<char>;

/// What `openssl::base64::decode_block` makes of `text`; `None` where it
/// fails.
pub uninterp spec fn base64_decode(text: Seq<char>) -> Option<Seq<u8>>;

/// What `openssl::symm::encrypt` makes of `data` with AES-256 in ECB mode
/// under `key`; `None` where it fails.
pub uninterp spec fn aes_encrypt(key: Seq<u8>, data: Seq<u8>) -> Option<Seq<u8>>;

/// What `openssl::symm::decrypt` makes of `data` with AES-256 in ECB mode
/// under `key`; `None` where it fails.
pub uninterp spec fn aes_decrypt(key: Seq<u8>, data: Seq<u8>) -> Option<Seq<u8>>;

/// What `openssl::rsa::Rsa::private_decrypt` makes of `data` with OAEP
/// padding under the private key that `key_der` encodes; `None` where the
/// key cannot be read or the decryption fails.
pub uninterp spec fn rsa_decrypt(key_der: Seq<u8>, data: Seq<u8>) -> Option<Seq<u8>>;

/// Calls `openssl::base64::encode_block`, which panics on an input too long
/// for a C `int`. The result is taken to depend on `bytes` alone.
#[verifier::external_body]
pub(crate) fn encode_block(bytes: &[u8]) -> (text: String)
    requires
        bytes@.len() <= MAX_INPUT,
    ensures
        text@ == base64_encode(bytes@),
{
    openssl::base64::encode_block(bytes)
}

/// Calls `openssl::base64::decode_block`, which panics on an input too long
/// for a C `int`. The result, failure included, is taken to depend on `text`
/// alone.
#[verifier::external_body]
pub(crate) fn decode_block(text: &str) -> (res: Result<Vec<u8>, openssl::error::ErrorStack>)
    requires
        encode_utf8(text@).len() <= MAX_INPUT,
    ensures
        res matches Ok(bytes) ==> base64_decode(text@) == Some(bytes@),
        res is Err ==> base64_decode(text@) is None,
{
    openssl::base64::decode_block(text)
}

/// Calls `openssl::symm::encrypt` with the cipher AES-256 in ECB mode and no
/// initialisation vector. It panics on a key shorter than the cipher's and on
/// data too long for a C `int`. The result, failure included, is taken to
/// depend on `key` and `data` alone.
#[verifier::external_body]
pub(crate) fn encrypt(key: &[u8], data: &[u8]) -> (res: Result<
    Vec<u8>,
    openssl::error::ErrorStack,
>)
    requires
        key@.len() == KEY_LEN,
        data@.len() <= MAX_INPUT,
    ensures
        res matches Ok(out) ==> aes_encrypt(key@, data@) == Some(out@),
        res is Err ==> aes_encrypt(key@, data@) is None,
{
    openssl::symm::encrypt(openssl::symm::Cipher::aes_256_ecb(), key, None, data)
}

/// Calls `openssl::symm::decrypt` with the cipher AES-256 in ECB mode and no
/// initialisation vector. It panics on a key shorter than the cipher's and on
/// data too long for a C `int`. The result, failure included, is taken to
/// depend on `key` and `data` alone.
#[verifier::external_body]
pub(crate) fn decrypt(key: &[u8], data: &[u8]) -> (res: Result<
    Vec<u8>,
    openssl::error::ErrorStack,
>)
    requires
        key@.len() == KEY_LEN,
        data@.len() <= MAX_INPUT,
    ensures
        res matches Ok(out) ==> aes_decrypt(key@, data@) == Some(out@),
        res is Err ==> aes_decrypt(key@, data@) is None,
{
    openssl::symm::decrypt(openssl::symm::Cipher::aes_256_ecb(), key, None, data)
}

/// Reads a private key with `Rsa::private_key_from_der` and calls
/// `Rsa::private_decrypt` with OAEP padding on a buffer of `Rsa::size` bytes,
/// cut to the length that the call gives. `private_decrypt` panics on data
/// too long for a C `int`. The result, failure included, is taken to depend
/// on `key_der` and `data` alone.
#[verifier::external_body]
pub(crate) fn private_decrypt(key_der: &[u8], data: &[u8]) -> (res: Result<
    Vec<u8>,
    openssl::error::ErrorStack,
>)
    requires
        data@.len() <= MAX_INPUT,
    ensures
        res matches Ok(out) ==> rsa_decrypt(key_der@, data@) == Some(out@),
        res is Err ==> rsa_decrypt(key_der@, data@) is None,
{
    let rsa = openssl::rsa::Rsa::private_key_from_der(key_der)?;
    let mut out = vec![0u8; rsa.size() as usize];
    let n = rsa.private_decrypt(data, &mut out, openssl::rsa::Padding::PKCS1_OAEP)?;
    out.truncate(n);
    Ok(out)
}

/// Calls `String::from_utf8`: the text that `bytes` encode, where they are
/// valid UTF-8.
#[verifier::external_body]
pub(crate) fn string_from_utf8(bytes: Vec<u8>) -> (res: Option<String>)
    ensures
        res is Some <==> valid_utf8(bytes@),
        res matches Some(s) ==> s@ == decode_utf8(bytes@),
{
    match String::from_utf8(bytes) {
        Ok(s) => Some(s),
        Err(_) => None,
    }
}

} // verus!
