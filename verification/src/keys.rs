//! The codecs of the two kinds of key: text and identity. A key that cannot
//! be read has no safe stand-in, so reading one is only offered for bytes
//! that are a key.

use crate::text::{text_bytes, text_from_bytes};
use vstd::prelude::*;
use vstd::slice::*;
use vstd::utf8::*;

verus! {

/// Longest text key, in bytes.
pub const MAX_STRING_KEY_SIZE: usize = 1000;

/// Longest identity, in bytes.
pub const MAX_PRINCIPAL_SIZE: usize = 29;

/// A text key.
#[derive(Clone, Debug, PartialEq, Eq, PartialOrd, Ord)]
pub struct StorableString(pub String);

impl StorableString {
    /// The bytes of the key: its UTF-8.
    pub fn to_bytes(&self) -> (bytes: Vec<u8>)
        ensures
            bytes@ == encode_utf8(self.0@),
    {
        text_bytes(self.0.as_str())
    }

    /// The key that the bytes spell, if they are text.
    pub fn try_from_bytes(bytes: Vec<u8>) -> (key: Option<StorableString>)
        ensures
            key.is_some() == valid_utf8(bytes@),
            key.is_some() ==> key.unwrap().0@ == decode_utf8(bytes@),
    {
        match text_from_bytes(bytes) {
            Some(text) => Some(StorableString(text)),
            None => None,
        }
    }

    /// The key that the bytes spell. Bytes that are not text are left out:
    /// there is no key to return for them.
    pub fn from_bytes(bytes: Vec<u8>) -> (key: StorableString)
        requires
            valid_utf8(bytes@),
        ensures
            key.0@ == decode_utf8(bytes@),
            encode_utf8(key.0@) == bytes@,
    {
        proof {
            decode_utf8_encode_utf8(bytes@);
        }
        match text_from_bytes(bytes) {
            Some(text) => StorableString(text),
            None => StorableString(String::new()),
        }
    }
}

/// An identity key: at most 29 bytes.
#[derive(Clone, Debug, PartialEq, Eq, PartialOrd, Ord)]
pub struct StorablePrincipal(pub Vec<u8>);

impl StorablePrincipal {
    /// Whether the key is an identity: at most 29 bytes long.
    pub open spec fn wf(&self) -> bool {
        self.0@.len() <= MAX_PRINCIPAL_SIZE
    }

    /// The bytes of the key.
    pub fn to_bytes(&self) -> (bytes: Vec<u8>)
        ensures
            bytes@ == self.0@,
    {
        slice_to_vec(self.0.as_slice())
    }

    /// The key with these bytes, if they can be an identity.
    pub fn try_from_bytes(bytes: Vec<u8>) -> (key: Option<StorablePrincipal>)
        ensures
            key.is_some() == (bytes@.len() <= MAX_PRINCIPAL_SIZE),
            key.is_some() ==> key.unwrap().0@ == bytes@ && key.unwrap().wf(),
    {
        if bytes.len() <= MAX_PRINCIPAL_SIZE {
            Some(StorablePrincipal(bytes))
        } else {
            None
        }
    }

    /// The key with these bytes. Bytes too long for an identity are left out.
    pub fn from_bytes(bytes: Vec<u8>) -> (key: StorablePrincipal)
        requires
            bytes@.len() <= MAX_PRINCIPAL_SIZE,
        ensures
            key.0@ == bytes@,
            key.wf(),
    {
        StorablePrincipal(bytes)
    }
}

} // verus!
