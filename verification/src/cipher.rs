//! The AEAD ciphers the shadowsocks relay can be configured with, and their
//! two string renderings: the dashed tool-facing name and the bare variant
//! name used in serialized records.

use vstd::prelude::*;

verus! {

#[derive(Clone, Copy, PartialEq, Eq, Structural, Debug)]
pub enum Cipher {
    Aes256Gcm,
    Chacha20IetfPoly1305,
    Aes128Gcm,
}

/// The dashed name the relay tools use.
pub open spec fn cipher_name(c: Cipher) -> Seq<char> {
    match c {
        Cipher::Aes256Gcm => "aes-256-gcm"@,
        Cipher::Chacha20IetfPoly1305 => "chacha20-ietf-poly1305"@,
        Cipher::Aes128Gcm => "aes-128-gcm"@,
    }
}

/// The bare variant name used in serialized records.
pub open spec fn cipher_variant_name(c: Cipher) -> Seq<char> {
    match c {
        Cipher::Aes256Gcm => "Aes256Gcm"@,
        Cipher::Chacha20IetfPoly1305 => "Chacha20IetfPoly1305"@,
        Cipher::Aes128Gcm => "Aes128Gcm"@,
    }
}

impl Cipher {
    /// The dashed name the relay tools use.
    pub fn as_str(&self) -> (r: &'static str)
        ensures
            r@ == cipher_name(*self),
    {
        match self {
            Cipher::Aes256Gcm => "aes-256-gcm",
            Cipher::Chacha20IetfPoly1305 => "chacha20-ietf-poly1305",
            Cipher::Aes128Gcm => "aes-128-gcm",
        }
    }

    /// The bare variant name used in serialized records.
    pub fn variant_name(&self) -> (r: &'static str)
        ensures
            r@ == cipher_variant_name(*self),
    {
        match self {
            Cipher::Aes256Gcm => "Aes256Gcm",
            Cipher::Chacha20IetfPoly1305 => "Chacha20IetfPoly1305",
            Cipher::Aes128Gcm => "Aes128Gcm",
        }
    }
}

} // verus!
