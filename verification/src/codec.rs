//! The form that a line has on the wire.
//!
//! Before a session has a key, a line travels as it is. Once it has one, a
//! line travels as the base64 text of its encryption under that key. In both
//! cases it ends in a line feed.

use crate::crypto::{
    aes_decrypt, aes_encrypt, base64_decode, base64_encode, decode_block, decrypt, encode_block,
    encrypt, string_from_utf8, KEY_LEN, MAX_INPUT,
};
use crate::error::ErrorKind;
use crate::text::{trim, trimmed};
use vstd::prelude::*;
use vstd::utf8::{decode_utf8, encode_utf8, valid_utf8};

verus! {

/// A result that holds text, with the text as a sequence of characters.
pub open spec fn text_result(r: Result<String, ErrorKind>) -> Result<Seq<char>, ErrorKind> {
    match r {
        Ok(s) => Ok(s@),
        Err(e) => Err(e),
    }
}

/// The line that decrypted bytes stand for: their text and a line feed.
/// Bytes that are no UTF-8 stand for none.
pub open spec fn plain_line(bytes: Seq<u8>) -> Result<Seq<char>, ErrorKind> {
    if valid_utf8(bytes) {
        Ok(decode_utf8(bytes) + "\n"@)
    } else {
        Err(ErrorKind::BadCrypto)
    }
}

/// The wire form of `msg` under `key`: `msg` without the whitespace at its
/// ends, encrypted and encoded where there is a key, and a line feed.
pub open spec fn encoded(key: Option<Seq<u8>>, msg: Seq<char>) -> Result<Seq<char>, ErrorKind> {
    let text = trimmed(msg);
    match key {
        None => Ok(text + "\n"@),
        Some(k) => if encode_utf8(text).len() > MAX_INPUT {
            Err(ErrorKind::BadCrypto)
        } else {
            match aes_encrypt(k, encode_utf8(text)) {
                None => Err(ErrorKind::BadCrypto),
                Some(secret) => if secret.len() > MAX_INPUT {
                    Err(ErrorKind::BadCrypto)
                } else {
                    Ok(base64_encode(secret) + "\n"@)
                },
            }
        },
    }
}

/// The line that arrived as `line` under `key`: `line` itself where there is
/// no key; else what its decoding and decryption stand for.
pub open spec fn decoded(key: Option<Seq<u8>>, line: Seq<char>) -> Result<Seq<char>, ErrorKind> {
    match key {
        None => Ok(line),
        Some(k) => if encode_utf8(line).len() > MAX_INPUT {
            Err(ErrorKind::BadCrypto)
        } else {
            match base64_decode(line) {
                None => Err(ErrorKind::BadCrypto),
                Some(secret) => if secret.len() > MAX_INPUT {
                    Err(ErrorKind::BadCrypto)
                } else {
                    match aes_decrypt(k, secret) {
                        None => Err(ErrorKind::BadCrypto),
                        Some(bytes) => plain_line(bytes),
                    }
                },
            }
        },
    }
}

/// Reads decrypted bytes as a line.
pub fn line_from_plaintext(bytes: Vec<u8>) -> (r: Result<String, ErrorKind>)
    ensures
        text_result(r) == plain_line(bytes@),
{
    match string_from_utf8(bytes) {
        Some(mut line) => {
            line.append("\n");
            Ok(line)
        },
        None => Err(ErrorKind::BadCrypto),
    }
}

/// The cipher state of one session: its key, once it has one.
pub struct Codec {
    key: Option<Vec<u8>>,
}

impl Codec {
    #[verifier::type_invariant]
    spec fn key_fits(self) -> bool {
        self.key matches Some(k) ==> k@.len() == KEY_LEN
    }

    /// The key of the session.
    pub closed spec fn key(&self) -> Option<Seq<u8>> {
        match self.key {
            Some(k) => Some(k@),
            None => None,
        }
    }

    /// The state of a session that has no key yet.
    pub fn new() -> (c: Codec)
        ensures
            c.key() is None,
    {
        Codec { key: None }
    }

    /// Whether the session has a key.
    pub fn has_key(&self) -> (r: bool)
        ensures
            r == self.key() is Some,
    {
        self.key.is_some()
    }

    /// Gives the session its key. A key that is not `KEY_LEN` bytes long is
    /// refused.
    pub fn set_aes_key(&mut self, key: Vec<u8>) -> (r: Result<(), ErrorKind>)
        ensures
            match r {
                Ok(_) => key@.len() == KEY_LEN && final(self).key() == Some(key@),
                Err(e) => e == ErrorKind::BadCrypto && key@.len() != KEY_LEN && final(self).key()
                    == old(self).key(),
            },
    {
        if key.len() != KEY_LEN {
            return Err(ErrorKind::BadCrypto);
        }
        self.key = Some(key);
        Ok(())
    }

    /// The wire form of `msg`.
    pub fn encode_line(&self, msg: &str) -> (r: Result<String, ErrorKind>)
        ensures
            text_result(r) == encoded(self.key(), msg@),
    {
        proof {
            use_type_invariant(self);
        }
        let text = trim(msg);
        match &self.key {
            None => {
                let mut line = text.to_owned();
                line.append("\n");
                Ok(line)
            },
            Some(key) => {
                let bytes = text.as_bytes();
                if bytes.len() > MAX_INPUT {
                    return Err(ErrorKind::BadCrypto);
                }
                match encrypt(key.as_slice(), bytes) {
                    Err(_) => Err(ErrorKind::BadCrypto),
                    Ok(secret) => {
                        if secret.len() > MAX_INPUT {
                            return Err(ErrorKind::BadCrypto);
                        }
                        let mut line = encode_block(secret.as_slice());
                        line.append("\n");
                        Ok(line)
                    },
                }
            },
        }
    }

    /// The line that arrived as `line`.
    pub fn decode_line(&self, line: &str) -> (r: Result<String, ErrorKind>)
        ensures
            text_result(r) == decoded(self.key(), line@),
    {
        proof {
            use_type_invariant(self);
        }
        match &self.key {
            None => Ok(line.to_owned()),
            Some(key) => {
                if line.as_bytes().len() > MAX_INPUT {
                    return Err(ErrorKind::BadCrypto);
                }
                let secret = match decode_block(line) {
                    Ok(secret) => secret,
                    Err(_) => {
                        return Err(ErrorKind::BadCrypto);
                    },
                };
                if secret.len() > MAX_INPUT {
                    return Err(ErrorKind::BadCrypto);
                }
                match decrypt(key.as_slice(), secret.as_slice()) {
                    Ok(bytes) => line_from_plaintext(bytes),
                    Err(_) => Err(ErrorKind::BadCrypto),
                }
            },
        }
    }
}

} // verus!
